use vstd::prelude::*;

use crate::bjerror::BjError;
use crate::hand::Hand;
use crate::strat::charts::ChartAction;
use crate::strat::tableindex::TableIndex;

verus! {

/// An extension point with no rule data: the surrender chart always defers.
pub struct SurrenderChart;

impl SurrenderChart {
    /// Always `NoAc`: no surrender rule is populated, deliberately.
    pub fn lookup_action(player_hand: &Hand, dealer_hand: &Hand) -> (r: Result<
        (ChartAction, Option<TableIndex>),
        BjError,
    >)
        ensures
            r == Ok::<(ChartAction, Option<TableIndex>), BjError>((ChartAction::NoAc, None)),
    {
        let _ = player_hand;
        let _ = dealer_hand;
        Ok((ChartAction::NoAc, None))
    }
}

} // verus!
