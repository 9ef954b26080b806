use bjsc::card::Card;
use bjsc::hand::Hand;

fn hand(tokens: &[&str]) -> Hand {
    let mut h = Hand::default();
    for t in tokens {
        h.add_card(Card::parse(t).unwrap());
    }
    h
}

#[test]
fn test_add_card() {
    let mut h = Hand::default();
    h.add_card(Card::parse("AS").unwrap());
    assert_eq!(h.total(), 11);

    h.add_card(Card::parse("AH").unwrap());
    assert_eq!(h.total(), 12);

    h.add_card(Card::parse("TD").unwrap());
    assert_eq!(h.total(), 12);

    h.add_card(Card::parse("TC").unwrap());
    assert_eq!(h.total(), 22);
}

#[test]
fn test_softness_sequence() {
    // The regression sequence of totals, with softness alongside: two aces
    // stay soft at 12, the first ten hardens the hand, the second busts it.
    let mut h = Hand::default();
    h.add_card(Card::parse("AS").unwrap());
    assert!(h.is_soft());
    h.add_card(Card::parse("AH").unwrap());
    assert!(h.is_soft());
    h.add_card(Card::parse("TD").unwrap());
    assert!(!h.is_soft());
    h.add_card(Card::parse("TC").unwrap());
    assert!(!h.is_soft());
    assert_eq!(h.total(), 22);
}

#[test]
fn test_empty_hand() {
    let h = Hand::default();
    assert_eq!(h.total(), 0);
    assert!(!h.is_soft());
    assert_eq!(h.num_cards(), 0);
    assert_eq!(h.first_card(), None);
    assert!(!h.splittable());
}

#[test]
fn test_splittable_value_equality() {
    assert!(hand(&["8H", "8D"]).splittable());
    assert!(hand(&["TH", "QD"]).splittable());
    assert!(!hand(&["8H", "9D"]).splittable());
    assert!(!hand(&["8H"]).splittable());
    assert!(!hand(&["8H", "8D", "8C"]).splittable());
}

#[test]
fn test_first_card() {
    let h = hand(&["7C", "2D"]);
    assert_eq!(Some(Card::parse("7C").unwrap()), h.first_card());
    assert_eq!(2, h.num_cards());
    assert_eq!(Card::parse("2D").unwrap(), h.cards()[1]);
}

#[test]
fn test_parse_hand() {
    let h = Hand::parse("AH 2C").unwrap();
    assert_eq!(13, h.total());
    assert!(h.is_soft());
    assert_eq!(2, h.num_cards());

    let empty = Hand::parse("").unwrap();
    assert_eq!(0, empty.num_cards());
    let spaces = Hand::parse("   ").unwrap();
    assert_eq!(0, spaces.num_cards());

    assert!(Hand::parse("AH 2X").is_err());
    assert!(Hand::parse("foo").is_err());
}

#[test]
fn test_format_hand() {
    let h = Hand::parse("  1H   10D  ").unwrap();
    assert_eq!("AH TD", h.to_string());
    assert_eq!("", Hand::default().to_string());
}
