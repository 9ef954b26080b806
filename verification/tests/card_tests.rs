use bjsc::card::Card;
use bjsc::card::Pip;
use bjsc::card::Suit;
use bjsc::BjError;

fn card(pip: Pip, suit: Suit) -> Card {
    Card { pip, suit }
}

#[test]
fn test_parse_aces() {
    assert_eq!(card(Pip::Ace, Suit::Spades), Card::parse("AS").unwrap());
    assert_eq!(card(Pip::Ace, Suit::Hearts), Card::parse("1H").unwrap());
}

#[test]
fn test_parse_tens() {
    assert_eq!(card(Pip::Ten, Suit::Clubs), Card::parse("TC").unwrap());
    assert_eq!(card(Pip::Ten, Suit::Diamonds), Card::parse("10D").unwrap());
}

#[test]
fn test_all_suits() {
    assert_eq!(card(Pip::Five, Suit::Spades), Card::parse("5S").unwrap());
    assert_eq!(card(Pip::Five, Suit::Hearts), Card::parse("5H").unwrap());
    assert_eq!(card(Pip::Five, Suit::Diamonds), Card::parse("5D").unwrap());
    assert_eq!(card(Pip::Five, Suit::Clubs), Card::parse("5C").unwrap());
}

#[test]
fn test_other_pips() {
    assert_eq!(card(Pip::Two, Suit::Spades), Card::parse("2S").unwrap());
    assert_eq!(card(Pip::Three, Suit::Spades), Card::parse("3S").unwrap());
    assert_eq!(card(Pip::Four, Suit::Spades), Card::parse("4S").unwrap());
    assert_eq!(card(Pip::Five, Suit::Spades), Card::parse("5S").unwrap());
    assert_eq!(card(Pip::Six, Suit::Spades), Card::parse("6S").unwrap());
    assert_eq!(card(Pip::Seven, Suit::Spades), Card::parse("7S").unwrap());
    assert_eq!(card(Pip::Eight, Suit::Spades), Card::parse("8S").unwrap());
    assert_eq!(card(Pip::Nine, Suit::Spades), Card::parse("9S").unwrap());
}

#[test]
fn test_try_from_card() {
    assert_eq!(card(Pip::Ace, Suit::Spades), Card::try_from(0).unwrap());
    assert_eq!(card(Pip::King, Suit::Hearts), Card::try_from(25).unwrap());
    assert_eq!(card(Pip::Five, Suit::Diamonds), Card::try_from(30).unwrap());
    assert_eq!(card(Pip::King, Suit::Clubs), Card::try_from(51).unwrap());
}

#[test]
fn test_try_from_out_of_range() {
    assert_eq!(Err(BjError::ValueOutOfRange(4, 0, 3)), Card::try_from(52));
    assert_eq!(Err(BjError::ValueOutOfRange(19, 0, 3)), Card::try_from(255));
}

#[test]
fn test_index_round_trip() {
    // Decoding any index in 0..52 and re-encoding the card gives it back.
    for n in 0u8..52 {
        let c = Card::try_from(n).unwrap();
        let back = suit_index(c.suit) * 13 + pip_index(c.pip);
        assert_eq!(n, back);
    }
}

fn suit_index(s: Suit) -> u8 {
    match s {
        Suit::Spades => 0,
        Suit::Hearts => 1,
        Suit::Diamonds => 2,
        Suit::Clubs => 3,
    }
}

fn pip_index(p: Pip) -> u8 {
    match p {
        Pip::Ace => 0,
        Pip::Two => 1,
        Pip::Three => 2,
        Pip::Four => 3,
        Pip::Five => 4,
        Pip::Six => 5,
        Pip::Seven => 6,
        Pip::Eight => 7,
        Pip::Nine => 8,
        Pip::Ten => 9,
        Pip::Jack => 10,
        Pip::Queen => 11,
        Pip::King => 12,
    }
}

#[test]
fn test_format_parse_round_trip() {
    // Every card formats to its canonical token, and parsing that token
    // gives the card back.
    for n in 0u8..52 {
        let c = Card::try_from(n).unwrap();
        let text = c.to_string();
        assert_eq!(2, text.len());
        assert_eq!(c, Card::parse(&text).unwrap());
    }
}

#[test]
fn test_alias_normalization() {
    // Alias inputs normalize to canonical tokens through parse-then-format.
    assert_eq!("AH", Card::parse("1H").unwrap().to_string());
    assert_eq!("TD", Card::parse("10D").unwrap().to_string());
    assert_eq!("AS", Card::parse(" as ".to_uppercase().as_str()).unwrap().to_string());
    assert_eq!("5C", Card::parse("5c").unwrap().to_string());
}

#[test]
fn test_parse_errors() {
    assert_eq!(
        Err(BjError::BadSuitValue("X".to_string())),
        Card::parse("5X")
    );
    assert_eq!(
        Err(BjError::BadPipValue("Z".to_string())),
        Card::parse("ZS")
    );
    assert_eq!(Err(BjError::BadSuitValue(String::new())), Card::parse(""));
    assert_eq!(Err(BjError::BadSuitValue(String::new())), Card::parse("   "));
    assert_eq!(
        Err(BjError::BadPipValue(String::new())),
        Card::parse("S")
    );
}

#[test]
fn test_values() {
    assert_eq!(11, Card::parse("AS").unwrap().value());
    assert_eq!(10, Card::parse("KD").unwrap().value());
    assert_eq!(10, Card::parse("QH").unwrap().value());
    assert_eq!(10, Card::parse("JC").unwrap().value());
    assert_eq!(10, Card::parse("TS").unwrap().value());
    assert_eq!(2, Card::parse("2S").unwrap().value());
    assert_eq!(9, Card::parse("9H").unwrap().value());
}
