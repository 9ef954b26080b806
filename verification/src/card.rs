use vstd::prelude::*;

use vstd::string::StrSliceExecFns;
use vstd::string::StringExecFns;

use crate::bjerror::BjError;
use crate::text::lemma_trim_subranges;
use crate::text::spec_trim;
use crate::text::trim_str;

verus! {

/// A playing card: a rank (pip) and a suit. Pure value type; identity is the
/// (pip, suit) pair.
#[derive(Debug, Clone, Copy, PartialEq, Eq, Structural, Hash)]
pub struct Card {
    pub pip: Pip,
    pub suit: Suit,
}

#[derive(Debug, Clone, Copy, PartialEq, Eq, Structural, Hash)]
pub enum Pip {
    Ace,
    Two,
    Three,
    Four,
    Five,
    Six,
    Seven,
    Eight,
    Nine,
    Ten,
    Jack,
    Queen,
    King,
}

#[derive(Debug, Clone, Copy, PartialEq, Eq, Structural, Hash)]
pub enum Suit {
    Spades,
    Hearts,
    Diamonds,
    Clubs,
}

/// Blackjack point value of a rank: 11 for an Ace, 10 for every face card.
pub open spec fn pip_value(p: Pip) -> int {
    match p {
        Pip::Ace => 11,
        Pip::Two => 2,
        Pip::Three => 3,
        Pip::Four => 4,
        Pip::Five => 5,
        Pip::Six => 6,
        Pip::Seven => 7,
        Pip::Eight => 8,
        Pip::Nine => 9,
        Pip::Ten => 10,
        Pip::Jack => 10,
        Pip::Queen => 10,
        Pip::King => 10,
    }
}

pub open spec fn card_value(c: Card) -> int {
    pip_value(c.pip)
}

pub proof fn lemma_card_value_bounds(c: Card)
    ensures
        2 <= card_value(c) <= 11,
{
}

/// Position of a rank in the canonical deck order.
pub open spec fn pip_index(p: Pip) -> int {
    match p {
        Pip::Ace => 0,
        Pip::Two => 1,
        Pip::Three => 2,
        Pip::Four => 3,
        Pip::Five => 4,
        Pip::Six => 5,
        Pip::Seven => 6,
        Pip::Eight => 7,
        Pip::Nine => 8,
        Pip::Ten => 9,
        Pip::Jack => 10,
        Pip::Queen => 11,
        Pip::King => 12,
    }
}

pub open spec fn suit_index(s: Suit) -> int {
    match s {
        Suit::Spades => 0,
        Suit::Hearts => 1,
        Suit::Diamonds => 2,
        Suit::Clubs => 3,
    }
}

pub open spec fn pip_of_index(n: int) -> Pip {
    if n == 0 {
        Pip::Ace
    } else if n == 1 {
        Pip::Two
    } else if n == 2 {
        Pip::Three
    } else if n == 3 {
        Pip::Four
    } else if n == 4 {
        Pip::Five
    } else if n == 5 {
        Pip::Six
    } else if n == 6 {
        Pip::Seven
    } else if n == 7 {
        Pip::Eight
    } else if n == 8 {
        Pip::Nine
    } else if n == 9 {
        Pip::Ten
    } else if n == 10 {
        Pip::Jack
    } else if n == 11 {
        Pip::Queen
    } else {
        Pip::King
    }
}

pub open spec fn suit_of_index(n: int) -> Suit {
    if n == 0 {
        Suit::Spades
    } else if n == 1 {
        Suit::Hearts
    } else if n == 2 {
        Suit::Diamonds
    } else {
        Suit::Clubs
    }
}

/// The card that a numeric encoding in 0..52 stands for:
/// rank is `n % 13`, suit is `n / 13`.
pub open spec fn card_of_index(n: int) -> Card {
    Card { pip: pip_of_index(n % 13), suit: suit_of_index(n / 13) }
}

/// The numeric encoding of a card, the inverse of `card_of_index`.
pub open spec fn card_index(c: Card) -> int {
    suit_index(c.suit) * 13 + pip_index(c.pip)
}

impl Pip {
    /// Blackjack point value; an Ace counts as 11 here, soft-total reduction
    /// is the hand's business.
    pub fn value(&self) -> (r: u8)
        ensures
            r as int == pip_value(*self),
    {
        match self {
            Pip::Ace => 11,
            Pip::Two => 2,
            Pip::Three => 3,
            Pip::Four => 4,
            Pip::Five => 5,
            Pip::Six => 6,
            Pip::Seven => 7,
            Pip::Eight => 8,
            Pip::Nine => 9,
            Pip::Ten | Pip::Jack | Pip::Queen | Pip::King => 10,
        }
    }

    /// Rank of a deck position in 0..13.
    pub fn try_from(value: u8) -> (r: Result<Self, BjError>)
        ensures
            value < 13 ==> r == Ok::<Pip, BjError>(pip_of_index(value as int)),
            value >= 13 ==> r == Err::<Pip, BjError>(BjError::ValueOutOfRange(value, 0, 12)),
    {
        match value {
            0 => Ok(Pip::Ace),
            1 => Ok(Pip::Two),
            2 => Ok(Pip::Three),
            3 => Ok(Pip::Four),
            4 => Ok(Pip::Five),
            5 => Ok(Pip::Six),
            6 => Ok(Pip::Seven),
            7 => Ok(Pip::Eight),
            8 => Ok(Pip::Nine),
            9 => Ok(Pip::Ten),
            10 => Ok(Pip::Jack),
            11 => Ok(Pip::Queen),
            12 => Ok(Pip::King),
            _ => Err(BjError::ValueOutOfRange(value, 0, 12)),
        }
    }
}

impl Suit {
    pub fn try_from(value: u8) -> (r: Result<Self, BjError>)
        ensures
            value < 4 ==> r == Ok::<Suit, BjError>(suit_of_index(value as int)),
            value >= 4 ==> r == Err::<Suit, BjError>(BjError::ValueOutOfRange(value, 0, 3)),
    {
        match value {
            0 => Ok(Suit::Spades),
            1 => Ok(Suit::Hearts),
            2 => Ok(Suit::Diamonds),
            3 => Ok(Suit::Clubs),
            _ => Err(BjError::ValueOutOfRange(value, 0, 3)),
        }
    }
}

impl Card {
    pub fn value(&self) -> (r: u8)
        ensures
            r as int == card_value(*self),
    {
        self.pip.value()
    }

    /// Decode a deck position: 0..52 bijects to (rank, suit).
    pub fn try_from(value: u8) -> (r: Result<Self, BjError>)
        ensures
            value < 52 ==> r == Ok::<Card, BjError>(card_of_index(value as int)),
            value >= 52 ==> r == Err::<Card, BjError>(
                BjError::ValueOutOfRange((value / 13) as u8, 0, 3),
            ),
    {
        let pip = match Pip::try_from(value % 13) {
            Ok(p) => p,
            Err(e) => {
                return Err(e);
            },
        };
        let suit = match Suit::try_from(value / 13) {
            Ok(s) => s,
            Err(e) => {
                return Err(e);
            },
        };
        Ok(Card { pip, suit })
    }
}

/// The canonical one-character rank token.
pub open spec fn pip_char(p: Pip) -> char {
    match p {
        Pip::Ace => 'A',
        Pip::Two => '2',
        Pip::Three => '3',
        Pip::Four => '4',
        Pip::Five => '5',
        Pip::Six => '6',
        Pip::Seven => '7',
        Pip::Eight => '8',
        Pip::Nine => '9',
        Pip::Ten => 'T',
        Pip::Jack => 'J',
        Pip::Queen => 'Q',
        Pip::King => 'K',
    }
}

pub open spec fn suit_char(s: Suit) -> char {
    match s {
        Suit::Spades => 'S',
        Suit::Hearts => 'H',
        Suit::Diamonds => 'D',
        Suit::Clubs => 'C',
    }
}

/// The canonical two-character card token: rank token then suit token.
pub open spec fn spec_format_card(c: Card) -> Seq<char> {
    seq![pip_char(c.pip), suit_char(c.suit)]
}

/// Rank tokens accepted on input: the canonical one-character tokens plus the
/// aliases `1` (Ace) and `10` (Ten).
pub open spec fn spec_parse_pip(s: Seq<char>) -> Option<Pip> {
    if s.len() == 1 {
        let c = s[0];
        if c == 'A' || c == '1' {
            Some(Pip::Ace)
        } else if c == '2' {
            Some(Pip::Two)
        } else if c == '3' {
            Some(Pip::Three)
        } else if c == '4' {
            Some(Pip::Four)
        } else if c == '5' {
            Some(Pip::Five)
        } else if c == '6' {
            Some(Pip::Six)
        } else if c == '7' {
            Some(Pip::Seven)
        } else if c == '8' {
            Some(Pip::Eight)
        } else if c == '9' {
            Some(Pip::Nine)
        } else if c == 'T' {
            Some(Pip::Ten)
        } else if c == 'J' {
            Some(Pip::Jack)
        } else if c == 'Q' {
            Some(Pip::Queen)
        } else if c == 'K' {
            Some(Pip::King)
        } else {
            None
        }
    } else if s.len() == 2 && s[0] == '1' && s[1] == '0' {
        Some(Pip::Ten)
    } else {
        None
    }
}

/// Suit tokens accepted on input: one letter, case-insensitive.
pub open spec fn spec_parse_suit(s: Seq<char>) -> Option<Suit> {
    if s.len() == 1 {
        let c = s[0];
        if c == 'S' || c == 's' {
            Some(Suit::Spades)
        } else if c == 'H' || c == 'h' {
            Some(Suit::Hearts)
        } else if c == 'D' || c == 'd' {
            Some(Suit::Diamonds)
        } else if c == 'C' || c == 'c' {
            Some(Suit::Clubs)
        } else {
            None
        }
    } else {
        None
    }
}

/// A whole card token: after trimming, the last character is the suit and
/// everything before it (trimmed again) is the rank.
pub open spec fn spec_parse_card(s: Seq<char>) -> Option<Card> {
    let t = spec_trim(s);
    if t.len() == 0 {
        None
    } else {
        let suit_tok = t.subrange(t.len() - 1, t.len() as int);
        let pip_tok = spec_trim(t.subrange(0, t.len() - 1));
        match spec_parse_suit(suit_tok) {
            None => None,
            Some(su) => match spec_parse_pip(pip_tok) {
                None => None,
                Some(p) => Some(Card { pip: p, suit: su }),
            },
        }
    }
}

impl Pip {
    /// Canonical rank token as text.
    pub fn to_string(&self) -> (r: String)
        ensures
            r@ == seq![pip_char(*self)],
    {
        let r = match self {
            Pip::Ace => "A",
            Pip::Two => "2",
            Pip::Three => "3",
            Pip::Four => "4",
            Pip::Five => "5",
            Pip::Six => "6",
            Pip::Seven => "7",
            Pip::Eight => "8",
            Pip::Nine => "9",
            Pip::Ten => "T",
            Pip::Jack => "J",
            Pip::Queen => "Q",
            Pip::King => "K",
        };
        proof {
            reveal_strlit("A");
            reveal_strlit("2");
            reveal_strlit("3");
            reveal_strlit("4");
            reveal_strlit("5");
            reveal_strlit("6");
            reveal_strlit("7");
            reveal_strlit("8");
            reveal_strlit("9");
            reveal_strlit("T");
            reveal_strlit("J");
            reveal_strlit("Q");
            reveal_strlit("K");
            assert(r@ =~= seq![pip_char(*self)]);
        }
        String::from_str(r)
    }

    /// Parse a rank token; the error carries the offending text.
    pub fn parse(s: &str) -> (r: Result<Self, BjError>)
        ensures
            match spec_parse_pip(s@) {
                Some(p) => r == Ok::<Pip, BjError>(p),
                None => (r matches Err(BjError::BadPipValue(m)) && m@ == s@),
            },
    {
        let n = s.unicode_len();
        if n == 1 {
            let c = s.get_char(0);
            if c == 'A' || c == '1' {
                return Ok(Pip::Ace);
            } else if c == '2' {
                return Ok(Pip::Two);
            } else if c == '3' {
                return Ok(Pip::Three);
            } else if c == '4' {
                return Ok(Pip::Four);
            } else if c == '5' {
                return Ok(Pip::Five);
            } else if c == '6' {
                return Ok(Pip::Six);
            } else if c == '7' {
                return Ok(Pip::Seven);
            } else if c == '8' {
                return Ok(Pip::Eight);
            } else if c == '9' {
                return Ok(Pip::Nine);
            } else if c == 'T' {
                return Ok(Pip::Ten);
            } else if c == 'J' {
                return Ok(Pip::Jack);
            } else if c == 'Q' {
                return Ok(Pip::Queen);
            } else if c == 'K' {
                return Ok(Pip::King);
            }
        } else if n == 2 {
            if s.get_char(0) == '1' && s.get_char(1) == '0' {
                return Ok(Pip::Ten);
            }
        }
        Err(BjError::BadPipValue(s.to_owned()))
    }
}

impl Suit {
    /// Canonical suit token as text.
    pub fn to_string(&self) -> (r: String)
        ensures
            r@ == seq![suit_char(*self)],
    {
        let r = match self {
            Suit::Spades => "S",
            Suit::Hearts => "H",
            Suit::Diamonds => "D",
            Suit::Clubs => "C",
        };
        proof {
            reveal_strlit("S");
            reveal_strlit("H");
            reveal_strlit("D");
            reveal_strlit("C");
            assert(r@ =~= seq![suit_char(*self)]);
        }
        String::from_str(r)
    }

    /// Parse a suit token; the error carries the offending text.
    pub fn parse(s: &str) -> (r: Result<Self, BjError>)
        ensures
            match spec_parse_suit(s@) {
                Some(su) => r == Ok::<Suit, BjError>(su),
                None => (r matches Err(BjError::BadSuitValue(m)) && m@ == s@),
            },
    {
        let n = s.unicode_len();
        if n == 1 {
            let c = s.get_char(0);
            if c == 'S' || c == 's' {
                return Ok(Suit::Spades);
            } else if c == 'H' || c == 'h' {
                return Ok(Suit::Hearts);
            } else if c == 'D' || c == 'd' {
                return Ok(Suit::Diamonds);
            } else if c == 'C' || c == 'c' {
                return Ok(Suit::Clubs);
            }
        }
        Err(BjError::BadSuitValue(s.to_owned()))
    }
}

impl Card {
    /// Canonical two-character token.
    pub fn to_string(&self) -> (r: String)
        ensures
            r@ == spec_format_card(*self),
    {
        let mut r = self.pip.to_string();
        let su = self.suit.to_string();
        r.append(su.as_str());
        proof {
            assert(r@ =~= spec_format_card(*self));
        }
        r
    }

    /// Parse a card token. A missing or unknown suit letter is reported
    /// before a bad rank token, as the suit is examined first.
    pub fn parse(s: &str) -> (r: Result<Self, BjError>)
        ensures
            match spec_parse_card(s@) {
                Some(c) => r == Ok::<Card, BjError>(c),
                None => r is Err,
            },
            ({
                let t = spec_trim(s@);
                t.len() == 0 ==> (r matches Err(BjError::BadSuitValue(m)) && m@
                    == Seq::<char>::empty())
            }),
            ({
                let t = spec_trim(s@);
                t.len() > 0 ==> {
                    let suit_tok = t.subrange(t.len() - 1, t.len() as int);
                    let pip_tok = spec_trim(t.subrange(0, t.len() - 1));
                    match spec_parse_suit(suit_tok) {
                        None => (r matches Err(BjError::BadSuitValue(m)) && m@ == suit_tok),
                        Some(su) => match spec_parse_pip(pip_tok) {
                            None => (r matches Err(BjError::BadPipValue(m)) && m@ == pip_tok),
                            Some(p) => r == Ok::<Card, BjError>(Card { pip: p, suit: su }),
                        },
                    }
                }
            }),
    {
        let t = trim_str(s);
        let n = t.unicode_len();
        if n == 0 {
            return Err(BjError::BadSuitValue(String::new()));
        }
        let suit_tok = t.substring_char(n - 1, n);
        let pip_raw = t.substring_char(0, n - 1);
        let pip_tok = trim_str(pip_raw);
        let suit = match Suit::parse(suit_tok) {
            Ok(su) => su,
            Err(e) => {
                return Err(e);
            },
        };
        let pip = match Pip::parse(pip_tok) {
            Ok(p) => p,
            Err(e) => {
                return Err(e);
            },
        };
        Ok(Card { pip, suit })
    }
}

/// Formatting a card and parsing the result gives the card back: the parser
/// accepts every canonical token and the text round-trip is lossless.
pub proof fn lemma_card_format_parse(c: Card)
    ensures
        spec_parse_card(spec_format_card(c)) == Some(c),
{
    let f = spec_format_card(c);
    assert(!crate::text::is_space(f[0]) && !crate::text::is_space(f[1]));
    lemma_trim_subranges(f, 0, 2);
    assert(f.subrange(0, 2) =~= f);
    let t = spec_trim(f);
    assert(t == f);
    let suit_tok = t.subrange(1, 2);
    assert(suit_tok =~= seq![suit_char(c.suit)]);
    let pip_pre = t.subrange(0, 1);
    assert(!crate::text::is_space(pip_pre[0]));
    lemma_trim_subranges(pip_pre, 0, 1);
    assert(pip_pre.subrange(0, 1) =~= pip_pre);
    let pip_tok = spec_trim(pip_pre);
    assert(pip_tok =~= seq![pip_char(c.pip)]);
    assert(spec_parse_suit(suit_tok) == Some(c.suit));
    assert(spec_parse_pip(pip_tok) == Some(c.pip));
}

/// Decoding an index in 0..52 and re-encoding the card gives the index back,
/// and encoding is the inverse of decoding on every card: the numeric
/// encoding is a bijection.
pub proof fn lemma_card_index_bijection()
    ensures
        forall|n: int| 0 <= n < 52 ==> #[trigger] card_index(card_of_index(n)) == n,
        forall|c: Card| 0 <= card_index(c) < 52 && #[trigger] card_of_index(card_index(c)) == c,
{
}

} // verus!
