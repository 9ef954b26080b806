use bjsc::card::Card;
use bjsc::hand::Hand;
use bjsc::strat::actions::Action;
use bjsc::strat::charts::lookup_action;
use bjsc::strat::charts::ChartAction;
use bjsc::strat::charts::ChartAction::DblH;
use bjsc::strat::charts::ChartAction::DblS;
use bjsc::strat::charts::ChartAction::Hit_;
use bjsc::strat::charts::ChartAction::NoAc;
use bjsc::strat::charts::ChartAction::SDas;
use bjsc::strat::charts::ChartAction::Splt;
use bjsc::strat::charts::ChartAction::Stnd;
use bjsc::strat::hard_chart::HardChart;
use bjsc::strat::soft_chart::SoftChart;
use bjsc::strat::split_chart::SplitChart;
use bjsc::strat::table_type::TableType;
use bjsc::BjError;

fn hand(tokens: &[&str]) -> Hand {
    let mut h = Hand::default();
    for t in tokens {
        h.add_card(Card::parse(t).unwrap());
    }
    h
}

fn hard(player: &[&str], dealer: &[&str]) -> ChartAction {
    let (p, d) = (hand(player), hand(dealer));
    HardChart::lookup_action(&p, &d).unwrap().0
}

fn soft(player: &[&str], dealer: &[&str]) -> ChartAction {
    let (p, d) = (hand(player), hand(dealer));
    SoftChart::lookup_action(&p, &d).unwrap().0
}

fn split(player: &[&str], dealer: &[&str]) -> ChartAction {
    let (p, d) = (hand(player), hand(dealer));
    SplitChart::lookup_action(&p, &d).unwrap().0
}

#[test]
fn test_lookup_low() {
    // Hit at or below 8
    assert_eq!(Hit_, hard(&["2H", "2C"], &["AH"]));
    assert_eq!(Hit_, hard(&["2H", "3C"], &["2H"]));
    assert_eq!(Hit_, hard(&["4H", "2C"], &["3H"]));
    assert_eq!(Hit_, hard(&["3H", "4C"], &["7H"]));
    assert_eq!(Hit_, hard(&["3H", "5C"], &["TH"]));
}

#[test]
fn test_lookup_mid() {
    // We are spot-checking some key values to try to check the chart lookup.
    assert_eq!(Hit_, hard(&["5H", "4C"], &["2C"]));
    assert_eq!(DblH, hard(&["3H", "6C"], &["3C"]));
    assert_eq!(DblH, hard(&["2H", "7C"], &["6C"]));
    assert_eq!(Hit_, hard(&["7H", "2C"], &["7C"]));
    assert_eq!(Hit_, hard(&["5H", "4C"], &["AC"]));

    assert_eq!(DblH, hard(&["5H", "6C"], &["2C"]));
    assert_eq!(Hit_, hard(&["8H", "4C"], &["2C"]));
    assert_eq!(Stnd, hard(&["5H", "8C"], &["2C"]));

    assert_eq!(DblH, hard(&["5H", "6C"], &["3C"]));
    assert_eq!(Hit_, hard(&["8H", "4C"], &["3C"]));
    assert_eq!(Stnd, hard(&["5H", "8C"], &["3C"]));

    assert_eq!(DblH, hard(&["5H", "6C"], &["4C"]));
    assert_eq!(Stnd, hard(&["8H", "4C"], &["4C"]));
    assert_eq!(Stnd, hard(&["5H", "8C"], &["4C"]));

    assert_eq!(DblH, hard(&["5H", "6C"], &["6C"]));
    assert_eq!(Stnd, hard(&["8H", "4C"], &["6C"]));
    assert_eq!(Stnd, hard(&["5H", "8C"], &["6C"]));

    assert_eq!(DblH, hard(&["5H", "6C"], &["7C"]));
    assert_eq!(Hit_, hard(&["8H", "4C"], &["7C"]));
    assert_eq!(Hit_, hard(&["5H", "8C"], &["7C"]));

    assert_eq!(DblH, hard(&["5H", "6C"], &["9C"]));
    assert_eq!(Hit_, hard(&["8H", "4C"], &["9C"]));
    assert_eq!(Hit_, hard(&["5H", "8C"], &["9C"]));

    assert_eq!(Hit_, hard(&["4H", "6C"], &["TC"]));
    assert_eq!(DblH, hard(&["8H", "3C"], &["TC"]));
    assert_eq!(Hit_, hard(&["5H", "7C"], &["TC"]));

    assert_eq!(Hit_, hard(&["4H", "6C"], &["AC"]));
    assert_eq!(DblH, hard(&["8H", "3C"], &["AC"]));
    assert_eq!(Hit_, hard(&["5H", "7C"], &["AC"]));
    assert_eq!(Hit_, hard(&["4H", "9C"], &["AC"]));
}

#[test]
fn test_lookup_high() {
    // Stand at or above 17
    assert_eq!(Stnd, hard(&["8H", "9D"], &["AC"]));
    assert_eq!(Stnd, hard(&["8H", "TD"], &["3C"]));
    assert_eq!(Stnd, hard(&["TH", "9D"], &["7C"]));
    assert_eq!(Stnd, hard(&["TH", "TD"], &["9C"]));
    assert_eq!(Stnd, hard(&["TC", "AH"], &["10C"]));
}

#[test]
fn soft_chart_test_lookup() {
    assert_eq!(Hit_, soft(&["AH", "2C"], &["AS"]));
    assert_eq!(Hit_, soft(&["AH", "2C"], &["2S"]));
    assert_eq!(Hit_, soft(&["AH", "2C"], &["4S"]));
    assert_eq!(DblH, soft(&["AH", "2C"], &["5S"]));
    assert_eq!(DblH, soft(&["AH", "2C"], &["6S"]));
    assert_eq!(Hit_, soft(&["AH", "2C"], &["7S"]));

    assert_eq!(Hit_, soft(&["AH", "6C"], &["AS"]));
    assert_eq!(Hit_, soft(&["AH", "6C"], &["2S"]));
    assert_eq!(DblH, soft(&["AH", "6C"], &["3S"]));
    assert_eq!(DblH, soft(&["AH", "6C"], &["5S"]));
    assert_eq!(DblH, soft(&["AH", "6C"], &["6S"]));
    assert_eq!(Hit_, soft(&["AH", "6C"], &["7S"]));

    assert_eq!(Hit_, soft(&["AH", "7C"], &["AS"]));
    assert_eq!(DblS, soft(&["AH", "7C"], &["2S"]));
    assert_eq!(DblS, soft(&["AH", "7C"], &["3S"]));
    assert_eq!(DblS, soft(&["AH", "7C"], &["5S"]));
    assert_eq!(DblS, soft(&["AH", "7C"], &["6S"]));
    assert_eq!(Stnd, soft(&["AH", "7C"], &["7S"]));
    assert_eq!(Stnd, soft(&["AH", "7C"], &["8S"]));
    assert_eq!(Hit_, soft(&["AH", "7C"], &["TS"]));

    assert_eq!(Stnd, soft(&["AH", "8C"], &["AS"]));
    assert_eq!(Stnd, soft(&["AH", "8C"], &["2S"]));
    assert_eq!(Stnd, soft(&["AH", "8C"], &["5S"]));
    assert_eq!(DblS, soft(&["AH", "8C"], &["6S"]));
    assert_eq!(Stnd, soft(&["AH", "8C"], &["7S"]));
    assert_eq!(Stnd, soft(&["AH", "8C"], &["TS"]));
}

#[test]
fn split_chart_test_lookup() {
    assert_eq!(SDas, split(&["2H", "2C"], &["2S"]));
    assert_eq!(SDas, split(&["2H", "2C"], &["3S"]));
    assert_eq!(Splt, split(&["2H", "2C"], &["4S"]));
    assert_eq!(Splt, split(&["2H", "2C"], &["7S"]));
    assert_eq!(NoAc, split(&["2H", "2C"], &["8S"]));
    assert_eq!(NoAc, split(&["2H", "2C"], &["TS"]));
    assert_eq!(NoAc, split(&["2H", "2C"], &["AS"]));

    assert_eq!(NoAc, split(&["4H", "4C"], &["2S"]));
    assert_eq!(NoAc, split(&["4H", "4C"], &["4S"]));
    assert_eq!(SDas, split(&["4H", "4C"], &["5S"]));
    assert_eq!(SDas, split(&["4H", "4C"], &["6S"]));
    assert_eq!(NoAc, split(&["4H", "4C"], &["7S"]));
    assert_eq!(NoAc, split(&["4H", "4C"], &["TS"]));
    assert_eq!(NoAc, split(&["4H", "4C"], &["AS"]));

    assert_eq!(Splt, split(&["9H", "9C"], &["2S"]));
    assert_eq!(Splt, split(&["9H", "9C"], &["6S"]));
    assert_eq!(NoAc, split(&["9H", "9C"], &["7S"]));
    assert_eq!(Splt, split(&["9H", "9C"], &["8S"]));
    assert_eq!(Splt, split(&["9H", "9C"], &["9S"]));
    assert_eq!(NoAc, split(&["9H", "9C"], &["TS"]));
    assert_eq!(NoAc, split(&["9H", "9C"], &["AS"]));

    assert_eq!(Splt, split(&["AH", "AC"], &["2S"]));
    assert_eq!(Splt, split(&["AH", "AC"], &["6S"]));
    assert_eq!(Splt, split(&["AH", "AC"], &["7S"]));
    assert_eq!(Splt, split(&["AH", "AC"], &["8S"]));
    assert_eq!(Splt, split(&["AH", "AC"], &["9S"]));
    assert_eq!(Splt, split(&["AH", "AC"], &["TS"]));
    assert_eq!(Splt, split(&["AH", "AC"], &["AS"]));
}

#[test]
fn test_split_never_for_tens() {
    // Never split tens, whatever the dealer shows.
    for d in ["2S", "3S", "4S", "5S", "6S", "7S", "8S", "9S", "TS", "AS"] {
        assert_eq!(NoAc, split(&["TH", "TC"], &[d]));
        assert_eq!(NoAc, split(&["KH", "QC"], &[d]));
    }
}

#[test]
fn test_split_always_for_eights() {
    for d in ["2S", "3S", "4S", "5S", "6S", "7S", "8S", "9S", "TS", "AS"] {
        assert_eq!(Splt, split(&["8H", "8C"], &[d]));
    }
}

#[test]
fn test_resolution_order_split_preempts_soft() {
    // Ace-Ace is splittable, soft and low-totaled: it must resolve through
    // the split table, whose index the resolution hands back.
    let p = hand(&["AH", "AC"]);
    let d = hand(&["6S"]);
    let (action, index) = lookup_action(&p, &d).unwrap();
    assert_eq!(Splt, action);
    let index = index.unwrap();
    assert_eq!(TableType::Split, index.table_type());
    assert_eq!(2, index.row_index());
    assert_eq!("split:2,6", index.to_string());
}

#[test]
fn test_resolution_falls_through_deferring_split() {
    // A 2-2 pair against a ten defers in the split table and falls through
    // to the hard table: total 4 is a Hit.
    let p = hand(&["2H", "2C"]);
    let d = hand(&["TS"]);
    let (action, index) = lookup_action(&p, &d).unwrap();
    assert_eq!(Hit_, action);
    assert!(index.is_none());
}

#[test]
fn test_resolution_soft_hand() {
    let p = hand(&["AH", "7C"]);
    let d = hand(&["3S"]);
    let (action, _) = lookup_action(&p, &d).unwrap();
    assert_eq!(DblS, action);
}

#[test]
fn test_missing_dealer_card() {
    let p = hand(&["TH", "7C"]);
    let d = Hand::default();
    assert_eq!(Err(BjError::MissingDealerCard), lookup_action(&p, &d));
}

#[test]
fn test_soft_range_error() {
    // A lone Ace is soft with total 11, outside the soft table's 13..21.
    let p = hand(&["AH"]);
    let d = hand(&["5S"]);
    assert_eq!(
        Err(BjError::ValueOutOfRange(11, 13, 21)),
        SoftChart::lookup_action(&p, &d)
    );
}

#[test]
fn test_apply_rules() {
    assert_eq!(Some(Action::Double), DblH.apply_rules());
    assert_eq!(Some(Action::Double), DblS.apply_rules());
    assert_eq!(Some(Action::Hit), Hit_.apply_rules());
    assert_eq!(Some(Action::Stand), Stnd.apply_rules());
    assert_eq!(Some(Action::Split), Splt.apply_rules());
    assert_eq!(Some(Action::Split), SDas.apply_rules());
    assert_eq!(None, NoAc.apply_rules());
}

#[test]
fn test_action_from_key() {
    assert_eq!(Some(Action::Hit), Action::from_key('h'));
    assert_eq!(Some(Action::Stand), Action::from_key('s'));
    assert_eq!(Some(Action::Split), Action::from_key('p'));
    assert_eq!(Some(Action::Double), Action::from_key('d'));
    assert_eq!(Some(Action::Surrender), Action::from_key('r'));
    assert_eq!(None, Action::from_key('x'));
}
