use vstd::prelude::*;

use crate::bjerror::BjError;
use crate::card::card_value;
use crate::card::Card;
use crate::text::dec_digits;
use crate::text::parse_u8_str;
use crate::text::spec_parse_u8;
use crate::text::u8_to_string;

verus! {

/// A dealer up-card column: the card's value 1..10, where 1 denotes an Ace.
#[derive(Debug, Copy, Clone, PartialEq, Eq, Structural, Hash)]
pub struct ColIndex(u8);

/// The column holding a given value, for specs that name a column.
pub closed spec fn spec_col(v: int) -> ColIndex {
    ColIndex(v as u8)
}

pub proof fn lemma_spec_col_value(v: int)
    requires
        0 <= v <= 255,
    ensures
        spec_col(v).spec_value() == v,
{
}

/// Columns are nothing but their value.
pub proof fn lemma_col_index_injective(a: ColIndex, b: ColIndex)
    requires
        a.spec_value() == b.spec_value(),
    ensures
        a == b,
{
}

/// A column's decimal text reads back as the same column value.
pub proof fn lemma_col_round_trip(v: u8)
    requires
        1 <= v <= 10,
    ensures
        spec_parse_col(dec_digits(v as int)) == Some(v as int),
{
    crate::text::lemma_parse_u8_dec_digits(v);
}

/// The column a raw value addresses: 11 (an Ace at full value) is folded to
/// 1, values already in 1..10 stand as they are.
pub open spec fn spec_col_of_value(v: int) -> Option<int> {
    if v == 11 {
        Some(1int)
    } else if 1 <= v <= 10 {
        Some(v)
    } else {
        None
    }
}

/// The column of a dealer up-card.
pub open spec fn spec_col_of_card(c: Card) -> int {
    if card_value(c) == 11 {
        1
    } else {
        card_value(c)
    }
}

pub open spec fn spec_parse_col(s: Seq<char>) -> Option<int> {
    match spec_parse_u8(s) {
        None => None,
        Some(v) => spec_col_of_value(v as int),
    }
}

impl ColIndex {
    pub closed spec fn spec_value(self) -> int {
        self.0 as int
    }

    /// The column of a dealer up-card; every card has one, since card
    /// values lie in 2..11.
    pub fn new_with_card(card: Card) -> (r: Result<Self, BjError>)
        ensures
            r matches Ok(ci) && ci.spec_value() == spec_col_of_card(card),
            1 <= spec_col_of_card(card) <= 10,
    {
        ColIndex::new(card.value())
    }

    fn new(val: u8) -> (r: Result<ColIndex, BjError>)
        ensures
            match spec_col_of_value(val as int) {
                Some(cv) => (r matches Ok(ci) && ci.spec_value() == cv),
                None => r == Err::<ColIndex, BjError>(BjError::ValueOutOfRange(val, 1, 10)),
            },
    {
        if val == 11 {
            return Ok(ColIndex(1));
        }
        if !(1 <= val && val <= 10) {
            return Err(BjError::ValueOutOfRange(val, 1, 10));
        }
        Ok(ColIndex(val))
    }

    pub fn value(&self) -> (r: u8)
        ensures
            r as int == self.spec_value(),
    {
        self.0
    }

    /// Parse a column number; 11 is folded to the Ace column as `new` does.
    pub fn parse(s: &str) -> (r: Result<Self, BjError>)
        ensures
            match spec_parse_col(s@) {
                Some(cv) => (r matches Ok(ci) && ci.spec_value() == cv),
                None => r is Err,
            },
            spec_parse_u8(s@) is None ==> (r matches Err(BjError::ParseIntError(m)) && m@ == s@),
            (match spec_parse_u8(s@) {
                Some(v) => spec_col_of_value(v as int) is None ==> r == Err::<ColIndex, BjError>(
                    BjError::ValueOutOfRange(v, 1, 10),
                ),
                None => true,
            }),
    {
        match parse_u8_str(s) {
            None => Err(BjError::ParseIntError(s.to_owned())),
            Some(v) => ColIndex::new(v),
        }
    }

    /// The column as decimal text.
    pub fn to_string(&self) -> (r: String)
        ensures
            r@ == dec_digits(self.spec_value()),
    {
        u8_to_string(self.0)
    }
}

} // verus!
