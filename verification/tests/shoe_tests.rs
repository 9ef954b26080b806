use bjsc::card::Card;
use bjsc::shoe::Shoe;

#[test]
fn test_unshuffled_multiplicity() {
    // Across the full unshuffled sequence every one of the 52 cards appears
    // once per deck.
    let num_decks = 6usize;
    let mut shoe = Shoe::new(num_decks);
    let mut counts = [0usize; 52];
    let mut dealt = 0usize;
    while let Some(card) = shoe.deal() {
        let idx = index_of(card);
        counts[idx as usize] += 1;
        dealt += 1;
    }
    assert_eq!(52 * num_decks, dealt);
    for n in 0..52 {
        assert_eq!(num_decks, counts[n]);
    }
}

fn index_of(card: Card) -> u8 {
    for n in 0u8..52 {
        if Card::try_from(n).unwrap() == card {
            return n;
        }
    }
    panic!("card out of range");
}

#[test]
fn test_penetration_after_shuffle() {
    // After a shuffle, dealing exactly 52 * num_decks - 26 cards reaches
    // the cut card.
    let num_decks = 6usize;
    let mut shoe = Shoe::new(num_decks);
    shoe.shuffle();
    let pen = 52 * num_decks - 26;
    for _ in 0..pen {
        assert!(!shoe.is_done());
        assert!(shoe.deal().is_some());
    }
    assert!(shoe.is_done());
}

#[test]
fn test_deal_past_physical_end() {
    let mut shoe = Shoe::new(1);
    shoe.shuffle();
    for _ in 0..52 {
        assert!(shoe.deal().is_some());
    }
    assert!(shoe.deal().is_none());
    assert!(shoe.is_done());
}

#[test]
fn test_shuffle_preserves_cards() {
    let mut shoe = Shoe::new(2);
    shoe.shuffle();
    let mut counts = [0usize; 52];
    while let Some(card) = shoe.deal() {
        counts[index_of(card) as usize] += 1;
    }
    for n in 0..52 {
        assert_eq!(2, counts[n]);
    }
}
