use vstd::prelude::*;

use crate::bjerror::BjError;
use crate::card::Card;
use crate::hand::spec_total;
use crate::hand::Hand;
use crate::strat::charts::as_chart_column;
use crate::strat::charts::spec_chart_column;
use crate::strat::charts::ChartAction;
use crate::strat::colindex::spec_col_of_card;
use crate::strat::colindex::ColIndex;
use crate::strat::tableindex::TableIndex;

verus! {

/// The row of the hard-totals chart that a total addresses: totals of 8 and
/// below fold into row 0, 17 and above into row 9, the rest map by offset.
pub open spec fn spec_hard_row(t: int) -> int {
    if t <= 8 {
        0
    } else if t >= 17 {
        9
    } else {
        t - 8
    }
}

/// The hard-totals chart. Rows are totals 8-and-below, 9..16, 17-and-above;
/// columns are dealer 2..9, then ten, then Ace.
pub open spec fn spec_hard_cell(row: int, col: int) -> ChartAction {
    if row == 0 {
        ChartAction::Hit_
    } else if row == 1 {
        if 1 <= col <= 4 {
            ChartAction::DblH
        } else {
            ChartAction::Hit_
        }
    } else if row == 2 {
        if 0 <= col <= 7 {
            ChartAction::DblH
        } else {
            ChartAction::Hit_
        }
    } else if row == 3 {
        ChartAction::DblH
    } else if row == 4 {
        if 2 <= col <= 4 {
            ChartAction::Stnd
        } else {
            ChartAction::Hit_
        }
    } else if 5 <= row <= 8 {
        if 0 <= col <= 4 {
            ChartAction::Stnd
        } else {
            ChartAction::Hit_
        }
    } else {
        ChartAction::Stnd
    }
}

/// What the hard chart answers for a hand pair: the cell under the player's
/// clamped total and the dealer's up-card column.
pub open spec fn spec_lookup_hard(p: Seq<Card>, d: Seq<Card>) -> Result<
    (ChartAction, Option<TableIndex>),
    BjError,
> {
    if d.len() == 0 {
        Err(BjError::MissingDealerCard)
    } else {
        Ok(
            (
                spec_hard_cell(
                    spec_hard_row(spec_total(p)),
                    spec_chart_column(spec_col_of_card(d[0])),
                ),
                None,
            ),
        )
    }
}

/// No hard-chart cell defers: the hard chart always answers.
pub proof fn lemma_hard_cell_not_noac(row: int, col: int)
    ensures
        spec_hard_cell(row, col) != ChartAction::NoAc,
{
}

fn hard_cell(row: u8, col: u8) -> (r: ChartAction)
    requires
        row < 10,
        col < 10,
    ensures
        r == spec_hard_cell(row as int, col as int),
{
    if row == 0 {
        ChartAction::Hit_
    } else if row == 1 {
        if 1 <= col && col <= 4 {
            ChartAction::DblH
        } else {
            ChartAction::Hit_
        }
    } else if row == 2 {
        if col <= 7 {
            ChartAction::DblH
        } else {
            ChartAction::Hit_
        }
    } else if row == 3 {
        ChartAction::DblH
    } else if row == 4 {
        if 2 <= col && col <= 4 {
            ChartAction::Stnd
        } else {
            ChartAction::Hit_
        }
    } else if row <= 8 {
        if col <= 4 {
            ChartAction::Stnd
        } else {
            ChartAction::Hit_
        }
    } else {
        ChartAction::Stnd
    }
}

pub struct HardChart;

impl HardChart {
    /// Look up the hard-totals verdict for the player's total against the
    /// dealer's up-card.
    pub fn lookup_action(player_hand: &Hand, dealer_hand: &Hand) -> (r: Result<
        (ChartAction, Option<TableIndex>),
        BjError,
    >)
        requires
            player_hand.wf(),
        ensures
            r == spec_lookup_hard(player_hand@, dealer_hand@),
    {
        let dealer_card = match dealer_hand.first_card() {
            None => {
                return Err(BjError::MissingDealerCard);
            },
            Some(c) => c,
        };
        let total = player_hand.total();
        let col_index = match ColIndex::new_with_card(dealer_card) {
            Ok(ci) => ci,
            Err(e) => {
                return Err(e);
            },
        };
        let chart_index = as_chart_column(col_index);
        let row: u8 = if total <= 8 {
            0
        } else if total >= 17 {
            9
        } else {
            (total - 8) as u8
        };
        Ok((hard_cell(row, chart_index as u8), None))
    }
}

} // verus!
