use vstd::prelude::*;

use crate::bjerror::BjError;
use crate::card::Card;
use crate::hand::count_aces;
use crate::hand::lemma_reduce_bounds;
use crate::hand::spec_soft;
use crate::hand::spec_total;
use crate::hand::sum_values;
use crate::hand::Hand;
use crate::strat::charts::as_chart_column;
use crate::strat::charts::spec_chart_column;
use crate::strat::charts::ChartAction;
use crate::strat::colindex::spec_col_of_card;
use crate::strat::colindex::ColIndex;
use crate::strat::tableindex::TableIndex;

verus! {

/// The soft-totals chart. Rows are soft totals 13..21, an Ace paired with
/// 2..10; columns are dealer 2..9, then ten, then Ace.
pub open spec fn spec_soft_cell(row: int, col: int) -> ChartAction {
    if row == 0 || row == 1 {
        if 3 <= col <= 4 {
            ChartAction::DblH
        } else {
            ChartAction::Hit_
        }
    } else if row == 2 || row == 3 {
        if 2 <= col <= 4 {
            ChartAction::DblH
        } else {
            ChartAction::Hit_
        }
    } else if row == 4 {
        if 1 <= col <= 4 {
            ChartAction::DblH
        } else {
            ChartAction::Hit_
        }
    } else if row == 5 {
        if 0 <= col <= 4 {
            ChartAction::DblS
        } else if 5 <= col <= 6 {
            ChartAction::Stnd
        } else {
            ChartAction::Hit_
        }
    } else if row == 6 {
        if col == 4 {
            ChartAction::DblS
        } else {
            ChartAction::Stnd
        }
    } else {
        ChartAction::Stnd
    }
}

/// What the soft chart answers: it defers on a hand that is not soft, and a
/// soft total must lie in 13..21 — only an undersized hand such as a lone
/// Ace can fall below, since a soft total never exceeds 21.
pub open spec fn spec_lookup_soft(p: Seq<Card>, d: Seq<Card>) -> Result<
    (ChartAction, Option<TableIndex>),
    BjError,
> {
    if !spec_soft(p) {
        Ok((ChartAction::NoAc, None))
    } else if d.len() == 0 {
        Err(BjError::MissingDealerCard)
    } else if !(13 <= spec_total(p) <= 21) {
        Err(BjError::ValueOutOfRange(spec_total(p) as u8, 13, 21))
    } else {
        Ok(
            (
                spec_soft_cell(
                    spec_total(p) - 13,
                    spec_chart_column(spec_col_of_card(d[0])),
                ),
                None,
            ),
        )
    }
}

/// No soft-chart cell defers.
pub proof fn lemma_soft_cell_not_noac(row: int, col: int)
    ensures
        spec_soft_cell(row, col) != ChartAction::NoAc,
{
}

fn soft_cell(row: u8, col: u8) -> (r: ChartAction)
    requires
        row < 9,
        col < 10,
    ensures
        r == spec_soft_cell(row as int, col as int),
{
    if row <= 1 {
        if 3 <= col && col <= 4 {
            ChartAction::DblH
        } else {
            ChartAction::Hit_
        }
    } else if row <= 3 {
        if 2 <= col && col <= 4 {
            ChartAction::DblH
        } else {
            ChartAction::Hit_
        }
    } else if row == 4 {
        if 1 <= col && col <= 4 {
            ChartAction::DblH
        } else {
            ChartAction::Hit_
        }
    } else if row == 5 {
        if col <= 4 {
            ChartAction::DblS
        } else if col <= 6 {
            ChartAction::Stnd
        } else {
            ChartAction::Hit_
        }
    } else if row == 6 {
        if col == 4 {
            ChartAction::DblS
        } else {
            ChartAction::Stnd
        }
    } else {
        ChartAction::Stnd
    }
}

pub struct SoftChart;

impl SoftChart {
    /// Look up the soft-totals verdict; defers when the hand is not soft,
    /// and rejects a soft total outside 13..21 with a range error.
    pub fn lookup_action(player_hand: &Hand, dealer_hand: &Hand) -> (r: Result<
        (ChartAction, Option<TableIndex>),
        BjError,
    >)
        requires
            player_hand.wf(),
        ensures
            r == spec_lookup_soft(player_hand@, dealer_hand@),
    {
        if !player_hand.is_soft() {
            return Ok((ChartAction::NoAc, None));
        }
        let dealer_card = match dealer_hand.first_card() {
            None => {
                return Err(BjError::MissingDealerCard);
            },
            Some(c) => c,
        };
        let total = player_hand.total();
        proof {
            crate::hand::lemma_count_aces_nonneg(player_hand@);
            lemma_reduce_bounds(sum_values(player_hand@), count_aces(player_hand@));
        }
        if !(13 <= total && total <= 21) {
            return Err(BjError::ValueOutOfRange(total as u8, 13, 21));
        }
        let col_index = match ColIndex::new_with_card(dealer_card) {
            Ok(ci) => ci,
            Err(e) => {
                return Err(e);
            },
        };
        let chart_index = as_chart_column(col_index);
        Ok((soft_cell((total - 13) as u8, chart_index as u8), None))
    }
}

} // verus!
