use vstd::prelude::*;

use vstd::string::StringExecFns;

verus! {

/// The five concrete trainee-facing decisions.
#[derive(Debug, PartialEq, Eq, Structural, Clone, Copy)]
pub enum Action {
    Hit,
    Stand,
    Split,
    Double,
    Surrender,
}

/// The action bound to a keyboard key, if any.
pub open spec fn spec_action_from_key(key: char) -> Option<Action> {
    if key == 'h' {
        Some(Action::Hit)
    } else if key == 's' {
        Some(Action::Stand)
    } else if key == 'p' {
        Some(Action::Split)
    } else if key == 'd' {
        Some(Action::Double)
    } else if key == 'r' {
        Some(Action::Surrender)
    } else {
        None
    }
}

pub open spec fn spec_action_name(a: Action) -> Seq<char> {
    match a {
        Action::Hit => "Hit"@,
        Action::Stand => "Stand"@,
        Action::Split => "Split"@,
        Action::Double => "Double"@,
        Action::Surrender => "Surrender"@,
    }
}

impl Action {
    pub fn from_key(key: char) -> (r: Option<Self>)
        ensures
            r == spec_action_from_key(key),
    {
        match key {
            'h' => Some(Action::Hit),
            's' => Some(Action::Stand),
            'p' => Some(Action::Split),
            'd' => Some(Action::Double),
            'r' => Some(Action::Surrender),
            _ => None,
        }
    }

    /// The action's display name.
    pub fn to_string(&self) -> (r: String)
        ensures
            r@ == spec_action_name(*self),
    {
        let s = match self {
            Action::Hit => "Hit",
            Action::Stand => "Stand",
            Action::Split => "Split",
            Action::Double => "Double",
            Action::Surrender => "Surrender",
        };
        String::from_str(s)
    }
}

} // verus!
