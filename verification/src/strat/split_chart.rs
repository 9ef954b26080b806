use vstd::prelude::*;

use crate::bjerror::BjError;
use crate::card::card_value;
use crate::card::Card;
use crate::hand::spec_splittable;
use crate::hand::Hand;
use crate::strat::charts::as_chart_column;
use crate::strat::charts::spec_chart_column;
use crate::strat::charts::ChartAction;
use crate::strat::colindex::lemma_col_index_injective;
use crate::strat::colindex::lemma_spec_col_value;
use crate::strat::colindex::spec_col;
use crate::strat::colindex::spec_col_of_card;
use crate::strat::colindex::ColIndex;
use crate::strat::rowindex::RowIndex;
use crate::strat::table_type::TableType;
use crate::strat::tableindex::new_table_index;
use crate::strat::tableindex::TableIndex;

verus! {

/// The row total of a splittable pair: twice the value of either card, with
/// an Ace pair folded to 2. Always an even number in 2..20, the row form
/// that the split chart's own row policy accepts.
pub open spec fn spec_split_row_total(v: int) -> int {
    if v == 11 {
        2
    } else {
        2 * v
    }
}

/// The pair-splitting chart. Rows are pairs Ace-Ace through Ten-Ten;
/// columns are dealer 2..9, then ten, then Ace. `NoAc` defers to the total
/// charts.
pub open spec fn spec_split_cell(row: int, col: int) -> ChartAction {
    if row == 0 {
        ChartAction::Splt
    } else if row == 1 || row == 2 {
        if 0 <= col <= 1 {
            ChartAction::SDas
        } else if 2 <= col <= 5 {
            ChartAction::Splt
        } else {
            ChartAction::NoAc
        }
    } else if row == 3 {
        if 3 <= col <= 4 {
            ChartAction::SDas
        } else {
            ChartAction::NoAc
        }
    } else if row == 4 {
        ChartAction::NoAc
    } else if row == 5 {
        if col == 0 {
            ChartAction::SDas
        } else if 1 <= col <= 4 {
            ChartAction::Splt
        } else {
            ChartAction::NoAc
        }
    } else if row == 6 {
        if 0 <= col <= 5 {
            ChartAction::Splt
        } else {
            ChartAction::NoAc
        }
    } else if row == 7 {
        ChartAction::Splt
    } else if row == 8 {
        if 0 <= col <= 4 || 6 <= col <= 7 {
            ChartAction::Splt
        } else {
            ChartAction::NoAc
        }
    } else {
        ChartAction::NoAc
    }
}

/// What the split chart answers: it defers unless the hand is a splittable
/// pair, and the returned address names the pair's even row total.
pub open spec fn spec_lookup_split(p: Seq<Card>, d: Seq<Card>) -> Result<
    (ChartAction, Option<TableIndex>),
    BjError,
> {
    if d.len() == 0 {
        Err(BjError::MissingDealerCard)
    } else if !spec_splittable(p) {
        Ok((ChartAction::NoAc, None))
    } else {
        let rt = spec_split_row_total(card_value(p[0]));
        let cv = spec_col_of_card(d[0]);
        Ok(
            (
                spec_split_cell(rt / 2 - 1, spec_chart_column(cv)),
                Some(
                    TableIndex {
                        row: RowIndex { table_type: TableType::Split, index: rt as u8 },
                        col: spec_col(cv),
                    },
                ),
            ),
        )
    }
}

fn split_cell(row: u8, col: u8) -> (r: ChartAction)
    requires
        row < 10,
        col < 10,
    ensures
        r == spec_split_cell(row as int, col as int),
{
    if row == 0 {
        ChartAction::Splt
    } else if row <= 2 {
        if col <= 1 {
            ChartAction::SDas
        } else if col <= 5 {
            ChartAction::Splt
        } else {
            ChartAction::NoAc
        }
    } else if row == 3 {
        if 3 <= col && col <= 4 {
            ChartAction::SDas
        } else {
            ChartAction::NoAc
        }
    } else if row == 4 {
        ChartAction::NoAc
    } else if row == 5 {
        if col == 0 {
            ChartAction::SDas
        } else if col <= 4 {
            ChartAction::Splt
        } else {
            ChartAction::NoAc
        }
    } else if row == 6 {
        if col <= 5 {
            ChartAction::Splt
        } else {
            ChartAction::NoAc
        }
    } else if row == 7 {
        ChartAction::Splt
    } else if row == 8 {
        if col <= 4 || (6 <= col && col <= 7) {
            ChartAction::Splt
        } else {
            ChartAction::NoAc
        }
    } else {
        ChartAction::NoAc
    }
}

pub struct SplitChart;

impl SplitChart {
    /// Look up the pair-splitting verdict; the hand must hold a splittable
    /// pair for the chart to apply, and the cell's address is returned
    /// beside the verdict.
    pub fn lookup_action(player_hand: &Hand, dealer_hand: &Hand) -> (r: Result<
        (ChartAction, Option<TableIndex>),
        BjError,
    >)
        ensures
            r == spec_lookup_split(player_hand@, dealer_hand@),
    {
        let dealer_card = match dealer_hand.first_card() {
            None => {
                return Err(BjError::MissingDealerCard);
            },
            Some(c) => c,
        };
        if !player_hand.splittable() {
            return Ok((ChartAction::NoAc, None));
        }
        let col_index = match ColIndex::new_with_card(dealer_card) {
            Ok(ci) => ci,
            Err(e) => {
                return Err(e);
            },
        };
        let chart_index = as_chart_column(col_index);
        let first = match player_hand.first_card() {
            None => {
                return Err(BjError::MissingDealerCard);
            },
            Some(c) => c,
        };
        let v = first.value();
        let row_total: u8 = if v == 11 {
            2
        } else {
            2 * v
        };
        let row_index = match RowIndex::new(TableType::Split, row_total) {
            Ok(ri) => ri,
            Err(e) => {
                return Err(e);
            },
        };
        let table_index = new_table_index(row_index, col_index);
        let chart_action = split_cell(row_total / 2 - 1, chart_index as u8);
        proof {
            let cv = spec_col_of_card(dealer_hand@[0]);
            lemma_spec_col_value(cv);
            lemma_col_index_injective(col_index, spec_col(cv));
        }
        Ok((chart_action, Some(table_index)))
    }
}

} // verus!
