use vstd::prelude::*;

verus! {

/// Feedback for the trainee's last answer; `Silent` when there is nothing
/// to report.
#[derive(Debug, Clone)]
pub enum GameMessage {
    Correct(String),
    Wrong(String),
    Silent,
}

impl GameMessage {
    pub fn correct(m: String) -> (r: Self)
        ensures
            r == GameMessage::Correct(m),
    {
        Self::Correct(m)
    }

    pub fn wrong(m: String) -> (r: Self)
        ensures
            r == GameMessage::Wrong(m),
    {
        Self::Wrong(m)
    }
}

impl Default for GameMessage {
    fn default() -> (r: Self)
        ensures
            r == GameMessage::Silent,
    {
        GameMessage::Silent
    }
}

} // verus!
