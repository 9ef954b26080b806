use vstd::prelude::*;

verus! {

/// The error taxonomy of the whole crate: structural parse errors carry the
/// offending token, domain range errors carry the offending value together
/// with the valid bounds.
#[derive(Debug, PartialEq, Eq)]
pub enum BjError {
    /// A chart lookup was attempted against an empty dealer hand.
    MissingDealerCard,

    /// A column index could not be parsed.
    BadColIndex(String),
    /// A row index could not be parsed.
    BadRowIndex(String),
    /// A table index could not be parsed.
    BadTableIndex(String),

    /// An unknown table-type token.
    UnknownTableType(String),

    /// A value outside an enumerated numeric domain: (value, low, high).
    ValueOutOfRange(u8, u8, u8),

    /// A rank token that names no rank.
    BadPipValue(String),
    /// A suit token that names no suit.
    BadSuitValue(String),

    /// A row or column that is not a number; carries the offending text.
    ParseIntError(String),
}

pub type BjResult<T> = Result<T, BjError>;

} // verus!
