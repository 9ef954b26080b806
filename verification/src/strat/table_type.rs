use vstd::prelude::*;

use vstd::string::StringExecFns;

use crate::bjerror::BjError;
use crate::text::str_eq;

verus! {

/// Which of the four strategy charts a row belongs to.
#[derive(Debug, Clone, Copy, PartialEq, Eq, Structural, Hash)]
pub enum TableType {
    Hard,
    Soft,
    Split,
    Surrender,
}

/// The row policy of each chart: Hard and Soft rows are totals in [2, 21],
/// Split rows are even pair totals in [2, 20], Surrender rows are totals in
/// [2, 20].
pub open spec fn spec_range_ok(t: TableType, row: int) -> bool {
    match t {
        TableType::Hard => 2 <= row <= 21,
        TableType::Soft => 2 <= row <= 21,
        TableType::Split => 2 <= row <= 21 && row % 2 == 0,
        TableType::Surrender => 2 <= row <= 20,
    }
}

/// The bounds named in a range error for each chart.
pub open spec fn spec_range_bounds(t: TableType) -> (u8, u8) {
    match t {
        TableType::Hard => (2u8, 21u8),
        TableType::Soft => (2u8, 21u8),
        TableType::Split => (2u8, 21u8),
        TableType::Surrender => (2u8, 20u8),
    }
}

pub open spec fn spec_parse_table_type(s: Seq<char>) -> Option<TableType> {
    if s == "hard"@ {
        Some(TableType::Hard)
    } else if s == "soft"@ {
        Some(TableType::Soft)
    } else if s == "split"@ {
        Some(TableType::Split)
    } else if s == "surrender"@ {
        Some(TableType::Surrender)
    } else {
        None
    }
}

pub open spec fn spec_format_table_type(t: TableType) -> Seq<char> {
    match t {
        TableType::Hard => "hard"@,
        TableType::Soft => "soft"@,
        TableType::Split => "split"@,
        TableType::Surrender => "surrender"@,
    }
}

/// The chart names round-trip: parsing a formatted chart name gives the
/// chart back.
pub proof fn lemma_table_type_round_trip(t: TableType)
    ensures
        spec_parse_table_type(spec_format_table_type(t)) == Some(t),
{
    reveal_strlit("hard");
    reveal_strlit("soft");
    reveal_strlit("split");
    reveal_strlit("surrender");
    match t {
        TableType::Hard => {},
        TableType::Soft => {
            assert("soft"@[1] != "hard"@[1]);
            assert("soft"@ != "hard"@);
        },
        TableType::Split => {
            assert("split"@.len() != "hard"@.len());
            assert("split"@.len() != "soft"@.len());
        },
        TableType::Surrender => {
            assert("surrender"@.len() != "hard"@.len());
            assert("surrender"@.len() != "soft"@.len());
            assert("surrender"@.len() != "split"@.len());
        },
    }
}

impl TableType {
    /// Accept a row number that the chart's policy allows, or report it with
    /// the chart's bounds.
    pub fn range_check(self, row: u8) -> (r: Result<(), BjError>)
        ensures
            spec_range_ok(self, row as int) ==> r == Ok::<(), BjError>(()),
            !spec_range_ok(self, row as int) ==> r == Err::<(), BjError>(
                BjError::ValueOutOfRange(row, spec_range_bounds(self).0, spec_range_bounds(self).1),
            ),
    {
        match self {
            TableType::Hard | TableType::Soft => {
                if 2 <= row && row <= 21 {
                    Ok(())
                } else {
                    Err(BjError::ValueOutOfRange(row, 2, 21))
                }
            },
            TableType::Split => {
                if 2 <= row && row <= 21 && row % 2 == 0 {
                    Ok(())
                } else {
                    Err(BjError::ValueOutOfRange(row, 2, 21))
                }
            },
            TableType::Surrender => {
                if 2 <= row && row <= 20 {
                    Ok(())
                } else {
                    Err(BjError::ValueOutOfRange(row, 2, 20))
                }
            },
        }
    }

    /// Parse a chart name; the error carries the unknown token.
    pub fn parse(s: &str) -> (r: Result<Self, BjError>)
        ensures
            match spec_parse_table_type(s@) {
                Some(t) => r == Ok::<TableType, BjError>(t),
                None => (r matches Err(BjError::UnknownTableType(m)) && m@ == s@),
            },
    {
        if str_eq(s, "hard") {
            Ok(TableType::Hard)
        } else if str_eq(s, "soft") {
            Ok(TableType::Soft)
        } else if str_eq(s, "split") {
            Ok(TableType::Split)
        } else if str_eq(s, "surrender") {
            Ok(TableType::Surrender)
        } else {
            Err(BjError::UnknownTableType(s.to_owned()))
        }
    }

    /// The chart's name, the inverse of `parse`.
    pub fn to_string(&self) -> (r: String)
        ensures
            r@ == spec_format_table_type(*self),
    {
        let s = match self {
            TableType::Hard => "hard",
            TableType::Soft => "soft",
            TableType::Split => "split",
            TableType::Surrender => "surrender",
        };
        String::from_str(s)
    }
}

} // verus!
