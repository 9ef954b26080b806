use vstd::prelude::*;

use crate::bjerror::BjError;
use crate::card::card_value;
use crate::card::Card;
use crate::hand::spec_soft;
use crate::hand::spec_splittable;
use crate::hand::spec_total;
use crate::hand::Hand;
use crate::strat::actions::Action;
use crate::strat::colindex::spec_col_of_card;
use crate::strat::colindex::ColIndex;
use crate::strat::hard_chart::lemma_hard_cell_not_noac;
use crate::strat::hard_chart::spec_lookup_hard;
use crate::strat::hard_chart::HardChart;
use crate::strat::soft_chart::lemma_soft_cell_not_noac;
use crate::strat::soft_chart::spec_lookup_soft;
use crate::strat::soft_chart::SoftChart;
use crate::strat::split_chart::spec_lookup_split;
use crate::strat::split_chart::SplitChart;
use crate::strat::surrender_chart::SurrenderChart;
use crate::strat::table_type::TableType;
use crate::strat::tableindex::TableIndex;

verus! {

/// The raw verdict stored in a chart cell, before game rules resolve the
/// contextual variants. `NoAc` means the chart does not apply and the next
/// chart in the resolution order governs.
#[derive(Debug, Copy, Clone, PartialEq, Eq, Structural, Hash)]
pub enum ChartAction {
    /// Double if allowed, otherwise hit.
    DblH,
    /// Double if allowed, otherwise stand.
    DblS,
    Hit_,
    Stnd,
    Splt,
    /// Split if doubling after a split is allowed.
    SDas,
    /// No action: this chart defers.
    NoAc,
}

/// With no game rules configured, each double variant maps to Double,
/// each split variant to Split, and `NoAc` to nothing.
pub open spec fn spec_apply_rules(ca: ChartAction) -> Option<Action> {
    match ca {
        ChartAction::DblH => Some(Action::Double),
        ChartAction::DblS => Some(Action::Double),
        ChartAction::Hit_ => Some(Action::Hit),
        ChartAction::Stnd => Some(Action::Stand),
        ChartAction::Splt => Some(Action::Split),
        ChartAction::SDas => Some(Action::Split),
        ChartAction::NoAc => None,
    }
}

impl ChartAction {
    /// Apply the (currently empty) game rules to a raw verdict; `NoAc` at
    /// this level signals a caller bug and yields nothing.
    pub fn apply_rules(self) -> (r: Option<Action>)
        ensures
            r == spec_apply_rules(self),
    {
        match self {
            ChartAction::DblH | ChartAction::DblS => Some(Action::Double),
            ChartAction::Hit_ => Some(Action::Hit),
            ChartAction::Stnd => Some(Action::Stand),
            ChartAction::Splt => Some(Action::Split),
            ChartAction::SDas => Some(Action::Split),
            ChartAction::NoAc => None,
        }
    }
}

/// Chart columns 0..9 from a column index 1..10: dealer 2..9 map in order,
/// ten to column 8, and the Ace — column index 1 — last.
pub open spec fn spec_chart_column(v: int) -> int {
    if v == 1 {
        9
    } else {
        v - 2
    }
}

pub(crate) fn as_chart_column(ci: ColIndex) -> (r: usize)
    requires
        1 <= ci.spec_value() <= 10,
    ensures
        r as int == spec_chart_column(ci.spec_value()),
        r < 10,
{
    let val = ci.value();
    if val == 1 {
        9
    } else {
        (val - 2) as usize
    }
}

/// Which chart answers for the hand, after the surrender chart's constant
/// deferral: the split chart if the hand is a splittable pair and its cell
/// does not defer, else the soft chart for a soft hand, else the hard
/// chart.
pub open spec fn spec_lookup_action(p: Seq<Card>, d: Seq<Card>) -> Result<
    (ChartAction, Option<TableIndex>),
    BjError,
> {
    if spec_splittable(p) {
        match spec_lookup_split(p, d) {
            Err(e) => Err(e),
            Ok(pair) => if pair.0 != ChartAction::NoAc {
                Ok(pair)
            } else {
                spec_soft_or_hard(p, d)
            },
        }
    } else {
        spec_soft_or_hard(p, d)
    }
}

pub open spec fn spec_soft_or_hard(p: Seq<Card>, d: Seq<Card>) -> Result<
    (ChartAction, Option<TableIndex>),
    BjError,
> {
    if spec_soft(p) {
        spec_lookup_soft(p, d)
    } else {
        spec_lookup_hard(p, d)
    }
}

/// Resolve a hand pair through the charts in strict order — surrender,
/// split, then soft or hard — first non-deferring verdict wins. On success
/// the verdict is never `NoAc`: the total charts always answer.
pub fn lookup_action(player_hand: &Hand, dealer_hand: &Hand) -> (r: Result<
    (ChartAction, Option<TableIndex>),
    BjError,
>)
    requires
        player_hand.wf(),
    ensures
        r == spec_lookup_action(player_hand@, dealer_hand@),
        r matches Ok(pair) ==> pair.0 != ChartAction::NoAc,
{
    let (chart_action, table_index) = match SurrenderChart::lookup_action(
        player_hand,
        dealer_hand,
    ) {
        Ok(p) => p,
        Err(e) => {
            return Err(e);
        },
    };
    if chart_action != ChartAction::NoAc {
        return Ok((chart_action, table_index));
    }
    if player_hand.splittable() {
        let (chart_action, table_index) = match SplitChart::lookup_action(
            player_hand,
            dealer_hand,
        ) {
            Ok(p) => p,
            Err(e) => {
                return Err(e);
            },
        };
        if chart_action != ChartAction::NoAc {
            return Ok((chart_action, table_index));
        }
    }
    proof {
        lemma_soft_hard_answer(player_hand@, dealer_hand@);
    }
    if player_hand.is_soft() {
        SoftChart::lookup_action(player_hand, dealer_hand)
    } else {
        HardChart::lookup_action(player_hand, dealer_hand)
    }
}

/// The final resolution stage never defers: whatever the soft or hard chart
/// returns on success is a real verdict.
pub proof fn lemma_soft_hard_answer(p: Seq<Card>, d: Seq<Card>)
    ensures
        spec_soft_or_hard(p, d) matches Ok(pair) ==> pair.0 != ChartAction::NoAc,
{
    if spec_soft(p) {
        match spec_lookup_soft(p, d) {
            Ok(pair) => {
                lemma_soft_cell_not_noac(
                    spec_total(p) - 13,
                    spec_chart_column(spec_col_of_card(d[0])),
                );
            },
            Err(_) => {},
        }
    } else {
        match spec_lookup_hard(p, d) {
            Ok(pair) => {
                lemma_hard_cell_not_noac(
                    crate::strat::hard_chart::spec_hard_row(spec_total(p)),
                    spec_chart_column(spec_col_of_card(d[0])),
                );
            },
            Err(_) => {},
        }
    }
}

/// Hard-table low boundary: a hard total of 8 or below resolves Hit against
/// every dealer card.
pub proof fn lemma_hard_low_hits(p: Seq<Card>, d: Seq<Card>)
    requires
        spec_total(p) <= 8,
        d.len() > 0,
    ensures
        spec_lookup_hard(p, d) == Ok::<(ChartAction, Option<TableIndex>), BjError>(
            (ChartAction::Hit_, None),
        ),
{
}

/// Hard-table high boundary: a hard total of 17 or above resolves Stand
/// against every dealer card.
pub proof fn lemma_hard_high_stands(p: Seq<Card>, d: Seq<Card>)
    requires
        spec_total(p) >= 17,
        d.len() > 0,
    ensures
        spec_lookup_hard(p, d) == Ok::<(ChartAction, Option<TableIndex>), BjError>(
            (ChartAction::Stnd, None),
        ),
{
}

/// A hard 11 against dealer 2..10 resolves double-else-hit.
pub proof fn lemma_hard_eleven_doubles(p: Seq<Card>, d: Seq<Card>)
    requires
        spec_total(p) == 11,
        d.len() > 0,
        2 <= card_value(d[0]) <= 10,
    ensures
        spec_lookup_hard(p, d) == Ok::<(ChartAction, Option<TableIndex>), BjError>(
            (ChartAction::DblH, None),
        ),
{
}

/// Soft 18 against dealer 2..6 resolves double-else-stand.
pub proof fn lemma_soft_eighteen_doubles(p: Seq<Card>, d: Seq<Card>)
    requires
        spec_soft(p),
        spec_total(p) == 18,
        d.len() > 0,
        2 <= card_value(d[0]) <= 6,
    ensures
        spec_lookup_soft(p, d) == Ok::<(ChartAction, Option<TableIndex>), BjError>(
            (ChartAction::DblS, None),
        ),
{
}

/// Soft 20 resolves Stand against every dealer card.
pub proof fn lemma_soft_twenty_stands(p: Seq<Card>, d: Seq<Card>)
    requires
        spec_soft(p),
        spec_total(p) == 20,
        d.len() > 0,
    ensures
        spec_lookup_soft(p, d) == Ok::<(ChartAction, Option<TableIndex>), BjError>(
            (ChartAction::Stnd, None),
        ),
{
}

/// A soft total outside 13..21 fails with a range error naming the bounds.
pub proof fn lemma_soft_range_error(p: Seq<Card>, d: Seq<Card>)
    requires
        spec_soft(p),
        !(13 <= spec_total(p) <= 21),
        d.len() > 0,
    ensures
        spec_lookup_soft(p, d) == Err::<(ChartAction, Option<TableIndex>), BjError>(
            BjError::ValueOutOfRange(spec_total(p) as u8, 13, 21),
        ),
{
}

/// An Ace pair resolves Split against every dealer card.
pub proof fn lemma_split_aces(p: Seq<Card>, d: Seq<Card>)
    requires
        spec_splittable(p),
        card_value(p[0]) == 11,
        d.len() > 0,
    ensures
        spec_lookup_split(p, d) matches Ok(pair) && pair.0 == ChartAction::Splt,
{
}

/// A ten-valued pair resolves to no split action against every dealer card.
pub proof fn lemma_split_tens(p: Seq<Card>, d: Seq<Card>)
    requires
        spec_splittable(p),
        card_value(p[0]) == 10,
        d.len() > 0,
    ensures
        spec_lookup_split(p, d) matches Ok(pair) && pair.0 == ChartAction::NoAc,
{
}

/// An eight pair resolves Split against every dealer card.
pub proof fn lemma_split_eights(p: Seq<Card>, d: Seq<Card>)
    requires
        spec_splittable(p),
        card_value(p[0]) == 8,
        d.len() > 0,
    ensures
        spec_lookup_split(p, d) matches Ok(pair) && pair.0 == ChartAction::Splt,
{
}

/// Resolution order: whenever the split chart answers for a splittable
/// pair, that answer is the whole resolution — the split chart pre-empts
/// the soft and hard charts.
pub proof fn lemma_split_preempts(p: Seq<Card>, d: Seq<Card>)
    requires
        spec_splittable(p),
        spec_lookup_split(p, d) matches Ok(pair) && pair.0 != ChartAction::NoAc,
    ensures
        spec_lookup_action(p, d) == spec_lookup_split(p, d),
{
}

} // verus!
