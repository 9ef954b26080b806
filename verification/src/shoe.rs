use vstd::prelude::*;

use vstd::pervasive::unreached;

use rand::seq::SliceRandom;

use crate::card::card_index;
use crate::card::card_of_index;
use crate::card::lemma_card_index_bijection;
use crate::card::Card;

verus! {

/// One standard deck in canonical order: index `i` holds the card that the
/// numeric encoding `i` stands for.
pub open spec fn spec_deck() -> Seq<Card> {
    Seq::new(52, |i: int| card_of_index(i))
}

/// `n` decks concatenated in canonical order.
pub open spec fn spec_shoe_cards(n: int) -> Seq<Card>
    decreases n,
{
    if n <= 0 {
        Seq::<Card>::empty()
    } else {
        spec_shoe_cards(n - 1) + spec_deck()
    }
}

/// How often a card occurs in a sequence.
pub open spec fn count_card(s: Seq<Card>, c: Card) -> int
    decreases s.len(),
{
    if s.len() == 0 {
        0
    } else {
        count_card(s.drop_last(), c) + if s.last() == c {
            1int
        } else {
            0int
        }
    }
}

pub proof fn lemma_shoe_cards_len(n: int)
    requires
        n >= 0,
    ensures
        spec_shoe_cards(n).len() == 52 * n,
    decreases n,
{
    if n > 0 {
        lemma_shoe_cards_len(n - 1);
    }
}

proof fn lemma_count_card_concat(a: Seq<Card>, b: Seq<Card>, c: Card)
    ensures
        count_card(a + b, c) == count_card(a, c) + count_card(b, c),
    decreases b.len(),
{
    if b.len() == 0 {
        assert(a + b =~= a);
    } else {
        assert((a + b).drop_last() =~= a + b.drop_last());
        assert((a + b).last() == b.last());
        lemma_count_card_concat(a, b.drop_last(), c);
    }
}

proof fn lemma_deck_count_prefix(c: Card, i: int)
    requires
        0 <= i <= 52,
    ensures
        count_card(spec_deck().subrange(0, i), c) == if card_index(c) < i {
            1int
        } else {
            0int
        },
    decreases i,
{
    lemma_card_index_bijection();
    if i == 0 {
    } else {
        let pre = spec_deck().subrange(0, i);
        assert(pre.drop_last() =~= spec_deck().subrange(0, i - 1));
        assert(pre.last() == card_of_index(i - 1));
        lemma_deck_count_prefix(c, i - 1);
        if card_of_index(i - 1) == c {
            assert(card_index(c) == i - 1);
        } else {
            assert(card_index(c) != i - 1);
        }
    }
}

/// Every one of the 52 cards occurs exactly once in a canonical deck.
pub proof fn lemma_deck_count(c: Card)
    ensures
        count_card(spec_deck(), c) == 1,
{
    lemma_card_index_bijection();
    lemma_deck_count_prefix(c, 52);
    assert(spec_deck().subrange(0, 52) =~= spec_deck());
}

/// Every one of the 52 cards occurs exactly `n` times across the full
/// unshuffled sequence of an `n`-deck shoe.
pub proof fn lemma_shoe_multiplicity(n: int, c: Card)
    requires
        n >= 0,
    ensures
        count_card(spec_shoe_cards(n), c) == n,
    decreases n,
{
    if n == 0 {
    } else {
        lemma_shoe_multiplicity(n - 1, c);
        lemma_count_card_concat(spec_shoe_cards(n - 1), spec_deck(), c);
        lemma_deck_count(c);
    }
}

/// An ordered multi-deck shoe: cards are dealt from `next` onward, and the
/// round stops once the cursor reaches the penetration cutoff, which holds
/// the final 26 cards back.
pub struct Shoe {
    cards: Vec<Card>,
    next: usize,
    pen: usize,
}

impl Shoe {
    pub closed spec fn spec_cards(self) -> Seq<Card> {
        self.cards@
    }

    pub closed spec fn spec_next(self) -> int {
        self.next as int
    }

    pub closed spec fn spec_pen(self) -> int {
        self.pen as int
    }

    /// Build `num_decks` decks in canonical order; the penetration cutoff
    /// leaves the last 26 cards undealt.
    pub fn new(num_decks: usize) -> (s: Shoe)
        requires
            num_decks >= 1,
            52 * num_decks as int <= usize::MAX as int,
        ensures
            s.spec_cards() == spec_shoe_cards(num_decks as int),
            s.spec_cards().len() == 52 * num_decks,
            s.spec_next() == 0,
            s.spec_pen() == 52 * num_decks as int - 26,
    {
        let mut cards: Vec<Card> = Vec::new();
        let mut d: usize = 0;
        while d < num_decks
            invariant
                0 <= d <= num_decks,
                cards@ == spec_shoe_cards(d as int),
                cards@.len() == 52 * d,
                52 * num_decks as int <= usize::MAX as int,
            decreases num_decks - d,
        {
            let mut c: usize = 0;
            while c < 52
                invariant
                    0 <= c <= 52,
                    d < num_decks,
                    cards@ == spec_shoe_cards(d as int) + spec_deck().subrange(0, c as int),
                    cards@.len() == 52 * d + c,
                    52 * num_decks as int <= usize::MAX as int,
                decreases 52 - c,
            {
                let card = match Card::try_from(c as u8) {
                    Ok(cd) => cd,
                    Err(_) => unreached(),
                };
                cards.push(card);
                proof {
                    assert(spec_deck()[c as int] == card_of_index(c as int));
                    assert(cards@ =~= spec_shoe_cards(d as int) + spec_deck().subrange(
                        0,
                        c + 1,
                    ));
                }
                c = c + 1;
            }
            proof {
                assert(spec_deck().subrange(0, 52) =~= spec_deck());
                assert(cards@ =~= spec_shoe_cards(d + 1));
            }
            d = d + 1;
        }
        proof {
            assert(cards@ =~= spec_shoe_cards(num_decks as int));
        }
        let pen = num_decks * 52 - 26;
        Shoe { cards, next: 0, pen }
    }

    /// Uniformly permute the cards and reset the deal cursor.
    pub fn shuffle(&mut self)
        ensures
            final(self).spec_cards().to_multiset() == old(self).spec_cards().to_multiset(),
            final(self).spec_cards().len() == old(self).spec_cards().len(),
            final(self).spec_next() == 0,
            final(self).spec_pen() == old(self).spec_pen(),
    {
        shuffle_cards(&mut self.cards);
        self.next = 0;
    }

    /// True once the cursor has reached the penetration cutoff: no new round
    /// should start, though a few cards can physically still be dealt.
    pub fn is_done(&self) -> (r: bool)
        ensures
            r == (self.spec_next() >= self.spec_pen()),
    {
        self.next >= self.pen
    }

    /// The next card, if the physical end has not been reached.
    pub fn deal(&mut self) -> (r: Option<Card>)
        ensures
            final(self).spec_cards() == old(self).spec_cards(),
            final(self).spec_pen() == old(self).spec_pen(),
            old(self).spec_next() < old(self).spec_cards().len() ==> {
                &&& r == Some(old(self).spec_cards()[old(self).spec_next()])
                &&& final(self).spec_next() == old(self).spec_next() + 1
            },
            old(self).spec_next() >= old(self).spec_cards().len() ==> {
                &&& r is None
                &&& final(self).spec_next() == old(self).spec_next()
            },
    {
        if self.next >= self.cards.len() {
            return None;
        }
        let card = self.cards[self.next];
        self.next = self.next + 1;
        Some(card)
    }
}

/// Relies on rand's `SliceRandom::shuffle` with `rand::thread_rng`: an
/// in-place Fisher-Yates permutation of the slice. Whatever order comes
/// back, the multiset of cards is unchanged.
#[verifier::external_body]
fn shuffle_cards(cards: &mut Vec<Card>)
    ensures
        final(cards)@.to_multiset() == old(cards)@.to_multiset(),
        final(cards)@.len() == old(cards)@.len(),
{
    cards.shuffle(&mut rand::thread_rng());
}

} // verus!
