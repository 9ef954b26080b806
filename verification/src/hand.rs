use vstd::prelude::*;

use vstd::string::StrSliceExecFns;
use vstd::string::StringExecFns;

use crate::bjerror::BjError;
use crate::card::card_value;
use crate::card::spec_format_card;
use crate::card::spec_parse_card;
use crate::card::Card;
use crate::card::Pip;
use crate::text::is_space;

verus! {

/// Sum of the blackjack values of a sequence of cards, every Ace counted
/// as 11.
pub open spec fn sum_values(s: Seq<Card>) -> int
    decreases s.len(),
{
    if s.len() == 0 {
        0
    } else {
        sum_values(s.drop_last()) + card_value(s.last())
    }
}

pub open spec fn count_aces(s: Seq<Card>) -> int
    decreases s.len(),
{
    if s.len() == 0 {
        0
    } else {
        count_aces(s.drop_last()) + if s.last().pip == Pip::Ace {
            1int
        } else {
            0int
        }
    }
}

/// The soft-total reduction: while the total busts and an Ace is still
/// counted as 11, count that Ace as 1 instead. Returns the final total and
/// how many Aces are still counted as 11.
pub open spec fn reduce(total: int, aces: int) -> (int, int)
    decreases aces,
{
    if total > 21 && aces > 0 {
        reduce(total - 10, aces - 1)
    } else {
        (total, aces)
    }
}

/// Best blackjack total of a hand: at most 21 whenever some choice of Ace
/// values allows it.
pub open spec fn spec_total(s: Seq<Card>) -> int {
    reduce(sum_values(s), count_aces(s)).0
}

/// Whether some Ace still counts as 11 in the best total.
pub open spec fn spec_soft(s: Seq<Card>) -> bool {
    reduce(sum_values(s), count_aces(s)).1 > 0
}

pub proof fn lemma_count_aces_nonneg(s: Seq<Card>)
    ensures
        count_aces(s) >= 0,
    decreases s.len(),
{
    if s.len() > 0 {
        lemma_count_aces_nonneg(s.drop_last());
    }
}

/// A soft total is never a bust: the reduction only stops above 21 when no
/// Ace is left to devalue.
pub proof fn lemma_reduce_bounds(total: int, aces: int)
    requires
        aces >= 0,
    ensures
        reduce(total, aces).1 > 0 ==> reduce(total, aces).0 <= 21,
        reduce(total, aces).0 <= total,
        0 <= reduce(total, aces).1 <= aces,
    decreases aces,
{
    if total > 21 && aces > 0 {
        lemma_reduce_bounds(total - 10, aces - 1);
    }
}

/// Exactly two cards of equal blackjack value.
pub open spec fn spec_splittable(s: Seq<Card>) -> bool {
    s.len() == 2 && card_value(s[0]) == card_value(s[1])
}

pub proof fn lemma_sum_values_concat(a: Seq<Card>, b: Seq<Card>)
    ensures
        sum_values(a + b) == sum_values(a) + sum_values(b),
    decreases b.len(),
{
    if b.len() == 0 {
        assert(a + b =~= a);
    } else {
        assert((a + b).drop_last() =~= a + b.drop_last());
        assert((a + b).last() == b.last());
        lemma_sum_values_concat(a, b.drop_last());
    }
}

pub proof fn lemma_sum_values_nonneg(s: Seq<Card>)
    ensures
        sum_values(s) >= 0,
    decreases s.len(),
{
    if s.len() > 0 {
        lemma_sum_values_nonneg(s.drop_last());
    }
}

pub proof fn lemma_sum_values_prefix(s: Seq<Card>, i: int)
    requires
        0 <= i <= s.len(),
    ensures
        sum_values(s.subrange(0, i)) <= sum_values(s),
{
    assert(s =~= s.subrange(0, i) + s.subrange(i, s.len() as int));
    lemma_sum_values_concat(s.subrange(0, i), s.subrange(i, s.len() as int));
    lemma_sum_values_nonneg(s.subrange(i, s.len() as int));
}

/// A hand of cards with its derived total and softness, kept consistent
/// after every append.
pub struct Hand {
    cards: Vec<Card>,
    total: u16,
    soft: bool,
}

impl View for Hand {
    type V = Seq<Card>;

    closed spec fn view(&self) -> Seq<Card> {
        self.cards@
    }
}

impl Hand {
    /// The derived fields agree with the cards, and the raw value sum fits
    /// the stored width.
    pub closed spec fn wf(self) -> bool {
        &&& self.total as int == spec_total(self.cards@)
        &&& self.soft == spec_soft(self.cards@)
        &&& sum_values(self.cards@) <= u16::MAX
    }

    /// Best blackjack total; 0 for an empty hand.
    pub fn total(&self) -> (r: u16)
        requires
            self.wf(),
        ensures
            r as int == spec_total(self@),
    {
        self.total
    }

    /// True iff an Ace still counts as 11 in the best total.
    pub fn is_soft(&self) -> (r: bool)
        requires
            self.wf(),
        ensures
            r == spec_soft(self@),
    {
        self.soft
    }

    /// The first card dealt; by convention the dealer's face-up card.
    pub fn first_card(&self) -> (r: Option<Card>)
        ensures
            match r {
                Some(c) => self@.len() > 0 && c == self@[0],
                None => self@.len() == 0,
            },
    {
        if self.cards.len() > 0 {
            Some(self.cards[0])
        } else {
            None
        }
    }

    /// Exactly two cards of equal blackjack value; a King and a Queen both
    /// count 10 and make a splittable pair.
    pub fn splittable(&self) -> (r: bool)
        ensures
            r == spec_splittable(self@),
    {
        if self.cards.len() != 2 {
            false
        } else {
            self.cards[0].value() == self.cards[1].value()
        }
    }

    /// Read-only ordered view of the cards.
    pub fn cards(&self) -> (r: &Vec<Card>)
        ensures
            r@ == self@,
    {
        &self.cards
    }

    pub fn num_cards(&self) -> (r: usize)
        ensures
            r == self@.len(),
    {
        self.cards.len()
    }

    /// Append a card and recompute the total and softness.
    pub fn add_card(&mut self, card: Card)
        requires
            old(self).wf(),
            sum_values(old(self)@) + card_value(card) <= u16::MAX,
        ensures
            final(self).wf(),
            final(self)@ == old(self)@.push(card),
    {
        self.cards.push(card);
        proof {
            assert(self.cards@.drop_last() =~= old(self)@);
        }
        let (t, sf) = compute_total(&self.cards);
        self.total = t;
        self.soft = sf;
    }
}

/// Recompute (total, soft) of a card sequence by summing every card at full
/// value and then applying the soft-total reduction.
fn compute_total(cards: &Vec<Card>) -> (r: (u16, bool))
    requires
        sum_values(cards@) <= u16::MAX,
    ensures
        r.0 as int == spec_total(cards@),
        r.1 == spec_soft(cards@),
{
    let n = cards.len();
    let mut sum: u16 = 0;
    let mut aces: usize = 0;
    let mut i: usize = 0;
    while i < n
        invariant
            0 <= i <= n,
            n == cards@.len(),
            sum_values(cards@) <= u16::MAX,
            sum as int == sum_values(cards@.subrange(0, i as int)),
            aces as int == count_aces(cards@.subrange(0, i as int)),
            aces <= i,
        decreases n - i,
    {
        let c = cards[i];
        proof {
            assert(cards@.subrange(0, i + 1).drop_last() =~= cards@.subrange(0, i as int));
            assert(cards@.subrange(0, i + 1).last() == cards@[i as int]);
            lemma_sum_values_prefix(cards@, i + 1);
        }
        sum = sum + c.value() as u16;
        if matches!(c.pip, Pip::Ace) {
            aces = aces + 1;
        }
        i = i + 1;
    }
    proof {
        assert(cards@.subrange(0, n as int) =~= cards@);
    }
    while sum > 21 && aces > 0
        invariant
            sum <= u16::MAX,
            reduce(sum as int, aces as int) == reduce(sum_values(cards@), count_aces(cards@)),
        decreases aces,
    {
        sum = sum - 10;
        aces = aces - 1;
    }
    (sum, aces > 0)
}

impl Default for Hand {
    /// The empty hand: total 0, not soft.
    fn default() -> (h: Hand)
        ensures
            h.wf(),
            h@ == Seq::<Card>::empty(),
    {
        Hand { cards: Vec::new(), total: 0, soft: false }
    }
}

/// The longest prefix of non-whitespace characters.
pub open spec fn first_token(s: Seq<char>) -> Seq<char>
    decreases s.len(),
{
    if s.len() == 0 || is_space(s[0]) {
        Seq::empty()
    } else {
        seq![s[0]] + first_token(s.drop_first())
    }
}

proof fn lemma_first_token_len(s: Seq<char>)
    ensures
        first_token(s).len() <= s.len(),
        s.len() > 0 && !is_space(s[0]) ==> first_token(s).len() >= 1,
    decreases s.len(),
{
    if s.len() == 0 || is_space(s[0]) {
    } else {
        lemma_first_token_len(s.drop_first());
    }
}

/// The whitespace-separated tokens of a sequence, in order.
pub open spec fn spec_tokens(s: Seq<char>) -> Seq<Seq<char>>
    decreases s.len(),
    via spec_tokens_dec
{
    if s.len() == 0 {
        Seq::empty()
    } else if is_space(s[0]) {
        spec_tokens(s.drop_first())
    } else {
        seq![first_token(s)] + spec_tokens(s.skip(first_token(s).len() as int))
    }
}

#[via_fn]
proof fn spec_tokens_dec(s: Seq<char>) {
    if s.len() > 0 && !is_space(s[0]) {
        lemma_first_token_len(s);
    }
}

/// The cards of a token sequence, or nothing as soon as one token is not a
/// card.
pub open spec fn spec_parse_cards(toks: Seq<Seq<char>>) -> Option<Seq<Card>>
    decreases toks.len(),
{
    if toks.len() == 0 {
        Some(Seq::<Card>::empty())
    } else {
        match spec_parse_card(toks[0]) {
            None => None,
            Some(c) => match spec_parse_cards(toks.drop_first()) {
                None => None,
                Some(rest) => Some(seq![c] + rest),
            },
        }
    }
}

/// Card tokens joined by single spaces.
pub open spec fn spec_format_hand(s: Seq<Card>) -> Seq<char>
    decreases s.len(),
{
    if s.len() == 0 {
        Seq::empty()
    } else if s.len() == 1 {
        spec_format_card(s[0])
    } else {
        spec_format_hand(s.drop_last()) + seq![' '] + spec_format_card(s.last())
    }
}

proof fn lemma_tokens_skip_space(s: Seq<char>, i: int)
    requires
        0 <= i < s.len(),
        is_space(s[i]),
    ensures
        spec_tokens(s.skip(i)) == spec_tokens(s.skip(i + 1)),
{
    assert(s.skip(i).len() > 0);
    assert(s.skip(i)[0] == s[i]);
    assert(s.skip(i).drop_first() =~= s.skip(i + 1));
}

proof fn lemma_first_token_subrange(s: Seq<char>, i: int, j: int)
    requires
        0 <= i < j <= s.len(),
        forall|k: int| i <= k < j ==> !is_space(#[trigger] s[k]),
        j == s.len() || is_space(s[j]),
    ensures
        first_token(s.skip(i)) == s.subrange(i, j),
    decreases j - i,
{
    assert(s.skip(i).len() > 0);
    assert(s.skip(i)[0] == s[i]);
    assert(!is_space(s[i]));
    assert(s.skip(i).drop_first() =~= s.skip(i + 1));
    if i + 1 == j {
        if j == s.len() {
            assert(s.skip(j).len() == 0);
            assert(first_token(s.skip(j)) == Seq::<char>::empty());
        } else {
            assert(s.skip(j)[0] == s[j]);
            assert(first_token(s.skip(j)) == Seq::<char>::empty());
        }
        assert(first_token(s.skip(i)) =~= s.subrange(i, j));
    } else {
        lemma_first_token_subrange(s, i + 1, j);
        assert(first_token(s.skip(i)) =~= seq![s[i]] + s.subrange(i + 1, j));
        assert(seq![s[i]] + s.subrange(i + 1, j) =~= s.subrange(i, j));
    }
}

proof fn lemma_tokens_step(s: Seq<char>, i: int, j: int)
    requires
        0 <= i < j <= s.len(),
        forall|k: int| i <= k < j ==> !is_space(#[trigger] s[k]),
        j == s.len() || is_space(s[j]),
    ensures
        spec_tokens(s.skip(i)) == seq![s.subrange(i, j)] + spec_tokens(s.skip(j)),
{
    lemma_first_token_subrange(s, i, j);
    assert(s.skip(i).len() > 0 && !is_space(s.skip(i)[0]));
    assert(first_token(s.skip(i)) == s.subrange(i, j));
    assert(first_token(s.skip(i)).len() == j - i);
    assert(s.skip(i).skip(j - i) =~= s.skip(j));
}

fn non_space_at(s: &str, j: usize) -> (r: bool)
    requires
        j < s@.len(),
    ensures
        r == !is_space(s@[j as int]),
{
    let c = s.get_char(j);
    c != ' ' && c != '\t' && c != '\n' && c != '\r'
}

proof fn lemma_first_token_whole(s: Seq<char>)
    requires
        s.len() > 0,
        forall|i: int| 0 <= i < s.len() ==> !is_space(#[trigger] s[i]),
    ensures
        first_token(s) == s,
    decreases s.len(),
{
    if s.len() == 1 {
        assert(first_token(s.drop_first()) == Seq::<char>::empty());
        assert(first_token(s) =~= s);
    } else {
        assert(forall|i: int|
            0 <= i < s.drop_first().len() ==> s.drop_first()[i] == #[trigger] s[i + 1]);
        lemma_first_token_whole(s.drop_first());
        assert(first_token(s) =~= s);
    }
}

proof fn lemma_tokens_single(t: Seq<char>)
    requires
        t.len() > 0,
        forall|i: int| 0 <= i < t.len() ==> !is_space(#[trigger] t[i]),
    ensures
        spec_tokens(t) == seq![t],
{
    lemma_first_token_whole(t);
    assert(t.skip(t.len() as int).len() == 0);
    assert(spec_tokens(t.skip(t.len() as int)) == Seq::<Seq<char>>::empty());
    assert(spec_tokens(t) =~= seq![t]);
}

proof fn lemma_first_token_concat(a: Seq<char>, b: Seq<char>)
    requires
        b.len() > 0,
        is_space(b[0]),
    ensures
        first_token(a + b) == first_token(a),
    decreases a.len(),
{
    let s = a + b;
    if a.len() == 0 {
        assert(s =~= b);
    } else if is_space(a[0]) {
        assert(s[0] == a[0]);
    } else {
        assert(s[0] == a[0]);
        assert(s.drop_first() =~= a.drop_first() + b);
        lemma_first_token_concat(a.drop_first(), b);
        assert(first_token(s) =~= seq![a[0]] + first_token(a.drop_first()));
        assert(first_token(a) =~= seq![a[0]] + first_token(a.drop_first()));
    }
}

proof fn lemma_tokens_concat(a: Seq<char>, b: Seq<char>)
    requires
        b.len() > 0,
        is_space(b[0]),
    ensures
        spec_tokens(a + b) == spec_tokens(a) + spec_tokens(b),
    decreases a.len(),
{
    let s = a + b;
    if a.len() == 0 {
        assert(s =~= b);
        assert(spec_tokens(a) + spec_tokens(b) =~= spec_tokens(b));
    } else if is_space(a[0]) {
        assert(s[0] == a[0]);
        assert(s.drop_first() =~= a.drop_first() + b);
        lemma_tokens_concat(a.drop_first(), b);
    } else {
        assert(s[0] == a[0]);
        lemma_first_token_concat(a, b);
        lemma_first_token_len(a);
        let k = first_token(a).len() as int;
        assert(s.skip(k) =~= a.skip(k) + b);
        lemma_tokens_concat(a.skip(k), b);
        assert(spec_tokens(s) =~= spec_tokens(a) + spec_tokens(b));
    }
}

proof fn lemma_card_token_no_space(c: Card)
    ensures
        spec_format_card(c).len() == 2,
        forall|i: int|
            0 <= i < spec_format_card(c).len() ==> !is_space(#[trigger] spec_format_card(c)[i]),
{
    assert(!is_space(spec_format_card(c)[0]));
    assert(!is_space(spec_format_card(c)[1]));
}

proof fn lemma_format_hand_tokens(cs: Seq<Card>)
    ensures
        spec_tokens(spec_format_hand(cs)) == Seq::new(cs.len(), |i: int| spec_format_card(cs[i])),
    decreases cs.len(),
{
    if cs.len() == 0 {
        assert(spec_tokens(spec_format_hand(cs)) =~= Seq::new(
            cs.len(),
            |i: int| spec_format_card(cs[i]),
        ));
    } else if cs.len() == 1 {
        lemma_card_token_no_space(cs[0]);
        lemma_tokens_single(spec_format_card(cs[0]));
        assert(spec_tokens(spec_format_hand(cs)) =~= Seq::new(
            cs.len(),
            |i: int| spec_format_card(cs[i]),
        ));
    } else {
        let a = spec_format_hand(cs.drop_last());
        let t = spec_format_card(cs.last());
        let b = seq![' '] + t;
        assert(spec_format_hand(cs) =~= a + b);
        assert(b[0] == ' ');
        lemma_tokens_concat(a, b);
        lemma_card_token_no_space(cs.last());
        assert(b.drop_first() =~= t);
        assert(spec_tokens(b) == spec_tokens(t));
        lemma_tokens_single(t);
        lemma_format_hand_tokens(cs.drop_last());
        assert(spec_tokens(spec_format_hand(cs)) =~= Seq::new(
            cs.len(),
            |i: int| spec_format_card(cs[i]),
        ));
    }
}

proof fn lemma_parse_cards_map(cs: Seq<Card>)
    ensures
        spec_parse_cards(Seq::new(cs.len(), |i: int| spec_format_card(cs[i]))) == Some(cs),
    decreases cs.len(),
{
    let toks = Seq::new(cs.len(), |i: int| spec_format_card(cs[i]));
    if cs.len() == 0 {
        assert(toks.len() == 0);
        assert(Seq::<Card>::empty() =~= cs);
    } else {
        assert(toks[0] == spec_format_card(cs[0]));
        crate::card::lemma_card_format_parse(cs[0]);
        let rest = cs.drop_first();
        assert(toks.drop_first() =~= Seq::new(rest.len(), |i: int| spec_format_card(rest[i])));
        lemma_parse_cards_map(rest);
        assert(seq![cs[0]] + rest =~= cs);
    }
}

/// A hand's text form reads back as the same cards: formatting and then
/// parsing is lossless for every card sequence.
pub proof fn lemma_hand_format_parse(cs: Seq<Card>)
    ensures
        spec_parse_cards(spec_tokens(spec_format_hand(cs))) == Some(cs),
{
    lemma_format_hand_tokens(cs);
    lemma_parse_cards_map(cs);
}

impl Hand {
    /// Build a hand from an owned card list, computing total and softness.
    fn from_cards(cards: Vec<Card>) -> (h: Hand)
        requires
            sum_values(cards@) <= u16::MAX,
        ensures
            h.wf(),
            h@ == cards@,
    {
        let (t, sf) = compute_total(&cards);
        Hand { cards, total: t, soft: sf }
    }

    /// Parse whitespace-separated card tokens; an empty or all-whitespace
    /// string is the empty hand, and the first bad token's card error is
    /// returned.
    pub fn parse(s: &str) -> (r: Result<Hand, BjError>)
        requires
            (match spec_parse_cards(spec_tokens(s@)) {
                Some(cs) => sum_values(cs) <= u16::MAX,
                None => true,
            }),
        ensures
            (match spec_parse_cards(spec_tokens(s@)) {
                Some(cs) => (r matches Ok(h) && h@ == cs && h.wf()),
                None => (r matches Err(e) && (e matches BjError::BadPipValue(_)
                    || e matches BjError::BadSuitValue(_))),
            }),
    {
        let n = s.unicode_len();
        let mut cards: Vec<Card> = Vec::new();
        proof {
            assert(s@.skip(0) =~= s@);
            match spec_parse_cards(spec_tokens(s@)) {
                Some(cs) => {
                    assert(cards@ + cs =~= cs);
                },
                None => {},
            }
        }
        let mut i: usize = 0;
        while i < n
            invariant
                0 <= i <= n,
                n == s@.len(),
                (match spec_parse_cards(spec_tokens(s@)) {
                    Some(cs) => sum_values(cs) <= u16::MAX,
                    None => true,
                }),
                (match spec_parse_cards(spec_tokens(s@.skip(i as int))) {
                    Some(rest) => spec_parse_cards(spec_tokens(s@)) == Some(cards@ + rest),
                    None => spec_parse_cards(spec_tokens(s@)) is None,
                }),
            decreases n - i,
        {
            let c = s.get_char(i);
            if c == ' ' || c == '\t' || c == '\n' || c == '\r' {
                proof {
                    lemma_tokens_skip_space(s@, i as int);
                }
                i = i + 1;
            } else {
                let mut j: usize = i + 1;
                while j < n && non_space_at(s, j)
                    invariant
                        i < j <= n,
                        n == s@.len(),
                        forall|k: int| i <= k < j ==> !is_space(#[trigger] s@[k]),
                        !is_space(s@[i as int]),
                    decreases n - j,
                {
                    j = j + 1;
                }
                let tok = s.substring_char(i, j);
                proof {
                    lemma_tokens_step(s@, i as int, j as int);
                }
                match Card::parse(tok) {
                    Err(e) => {
                        return Err(e);
                    },
                    Ok(card) => {
                        proof {
                            let toks = spec_tokens(s@.skip(i as int));
                            assert(toks.drop_first() =~= spec_tokens(s@.skip(j as int)));
                            assert(toks[0] == tok@);
                            match spec_parse_cards(spec_tokens(s@.skip(j as int))) {
                                Some(rest2) => {
                                    assert(spec_parse_cards(toks) == Some(seq![card] + rest2));
                                    assert(cards@ + (seq![card] + rest2) =~= cards@.push(card)
                                        + rest2);
                                },
                                None => {
                                    assert(spec_parse_cards(toks) is None);
                                },
                            }
                        }
                        cards.push(card);
                        i = j;
                    },
                }
            }
        }
        proof {
            assert(s@.skip(n as int).len() == 0);
            assert(spec_tokens(s@.skip(n as int)) =~= Seq::<Seq<char>>::empty());
            assert(spec_parse_cards(spec_tokens(s@)) == Some(
                cards@ + Seq::<Card>::empty(),
            ));
            assert(cards@ + Seq::<Card>::empty() =~= cards@);
        }
        Ok(Hand::from_cards(cards))
    }

    /// Canonical card tokens joined by single spaces.
    pub fn to_string(&self) -> (r: String)
        ensures
            r@ == spec_format_hand(self@),
    {
        let mut out = String::new();
        let n = self.cards.len();
        let mut i: usize = 0;
        while i < n
            invariant
                0 <= i <= n,
                n == self@.len(),
                out@ == spec_format_hand(self@.subrange(0, i as int)),
            decreases n - i,
        {
            if i > 0 {
                out.append(" ");
                proof {
                    reveal_strlit(" ");
                }
            }
            let tok = self.cards[i].to_string();
            out.append(tok.as_str());
            proof {
                let pre = self@.subrange(0, i as int);
                let cur = self@.subrange(0, i + 1);
                assert(cur.drop_last() =~= pre);
                assert(cur.last() == self@[i as int]);
                if i == 0 {
                    assert(out@ =~= spec_format_hand(cur));
                } else {
                    assert(out@ =~= spec_format_hand(pre) + seq![' '] + spec_format_card(
                        self@[i as int],
                    ));
                }
            }
            i = i + 1;
        }
        proof {
            assert(self@.subrange(0, n as int) =~= self@);
        }
        out
    }
}

} // verus!
