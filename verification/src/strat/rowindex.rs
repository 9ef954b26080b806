use vstd::prelude::*;

use vstd::string::StringExecFns;

use crate::bjerror::BjError;
use crate::strat::table_type::spec_format_table_type;
use crate::strat::table_type::spec_parse_table_type;
use crate::strat::table_type::spec_range_bounds;
use crate::strat::table_type::spec_range_ok;
use crate::strat::table_type::TableType;
use crate::text::dec_digits;
use crate::text::parse_u8_str;
use crate::text::spec_parse_u8;
use crate::text::spec_split_once;
use crate::text::split_once_char;
use crate::text::u8_to_string;

verus! {

/// A chart row: the chart it belongs to and the row number, valid for that
/// chart's row policy.
#[derive(Debug, Clone, Copy, PartialEq, Eq, Structural, Hash)]
pub struct RowIndex {
    pub table_type: TableType,
    pub index: u8,
}

/// A row in text form: `<tabletype>:<row>`, with the row valid for the
/// chart.
pub open spec fn spec_parse_row_index(s: Seq<char>) -> Option<RowIndex> {
    match spec_split_once(s, ':') {
        None => None,
        Some((a, b)) => match spec_parse_table_type(a) {
            None => None,
            Some(t) => match spec_parse_u8(b) {
                None => None,
                Some(i) => if spec_range_ok(t, i as int) {
                    Some(RowIndex { table_type: t, index: i })
                } else {
                    None
                },
            },
        },
    }
}

pub open spec fn spec_format_row_index(r: RowIndex) -> Seq<char> {
    spec_format_table_type(r.table_type) + seq![':'] + dec_digits(r.index as int)
}

/// A valid row round-trips losslessly through format and parse.
pub proof fn lemma_row_index_round_trip(r: RowIndex)
    requires
        spec_range_ok(r.table_type, r.index as int),
    ensures
        spec_parse_row_index(spec_format_row_index(r)) == Some(r),
{
    reveal_strlit("hard");
    reveal_strlit("soft");
    reveal_strlit("split");
    reveal_strlit("surrender");
    let tt = spec_format_table_type(r.table_type);
    let digits = crate::text::dec_digits(r.index as int);
    let s = spec_format_row_index(r);
    crate::text::lemma_dec_digits_value(r.index as int);
    assert(forall|i: int| 0 <= i < tt.len() ==> tt[i] != ':');
    assert(s =~= tt + (seq![':'] + digits));
    crate::text::lemma_index_of_char_concat(tt, seq![':'] + digits, ':');
    assert(s.subrange(0, tt.len() as int) =~= tt);
    assert(s.subrange(tt.len() as int + 1, s.len() as int) =~= digits);
    crate::strat::table_type::lemma_table_type_round_trip(r.table_type);
    crate::text::lemma_parse_u8_dec_digits(r.index);
}

impl RowIndex {
    /// Accept a row that the chart's policy allows.
    pub fn new(table_type: TableType, index: u8) -> (r: Result<Self, BjError>)
        ensures
            spec_range_ok(table_type, index as int) ==> r == Ok::<RowIndex, BjError>(
                RowIndex { table_type, index },
            ),
            !spec_range_ok(table_type, index as int) ==> r == Err::<RowIndex, BjError>(
                BjError::ValueOutOfRange(
                    index,
                    spec_range_bounds(table_type).0,
                    spec_range_bounds(table_type).1,
                ),
            ),
    {
        match table_type.range_check(index) {
            Ok(_) => Ok(RowIndex { table_type, index }),
            Err(e) => Err(e),
        }
    }

    /// Parse `<tabletype>:<row>`; each failure names its own token.
    pub fn parse(row: &str) -> (r: Result<Self, BjError>)
        ensures
            match spec_parse_row_index(row@) {
                Some(ri) => r == Ok::<RowIndex, BjError>(ri),
                None => r is Err,
            },
            spec_split_once(row@, ':') is None ==> (r matches Err(BjError::BadRowIndex(m)) && m@
                == row@),
            (match spec_split_once(row@, ':') {
                Some((a, b)) => {
                    &&& spec_parse_table_type(a) is None ==> (r matches Err(
                        BjError::UnknownTableType(m),
                    ) && m@ == a)
                    &&& (spec_parse_table_type(a) is Some && spec_parse_u8(b) is None) ==> (
                    r matches Err(BjError::ParseIntError(m)) && m@ == b)
                    &&& (match (spec_parse_table_type(a), spec_parse_u8(b)) {
                        (Some(t), Some(i)) => !spec_range_ok(t, i as int) ==> r == Err::<
                            RowIndex,
                            BjError,
                        >(
                            BjError::ValueOutOfRange(
                                i,
                                spec_range_bounds(t).0,
                                spec_range_bounds(t).1,
                            ),
                        ),
                        _ => true,
                    })
                },
                None => true,
            }),
    {
        let (table_str, index_str) = match split_once_char(row, ':') {
            None => {
                return Err(BjError::BadRowIndex(row.to_owned()));
            },
            Some(p) => p,
        };
        let table_type = match TableType::parse(table_str) {
            Ok(t) => t,
            Err(e) => {
                return Err(e);
            },
        };
        let index = match parse_u8_str(index_str) {
            None => {
                return Err(BjError::ParseIntError(index_str.to_owned()));
            },
            Some(i) => i,
        };
        RowIndex::new(table_type, index)
    }

    /// The row as `<tabletype>:<row>`, the inverse of `parse`.
    pub fn to_string(&self) -> (r: String)
        ensures
            r@ == spec_format_row_index(*self),
    {
        let mut out = self.table_type.to_string();
        out.append(":");
        let num = u8_to_string(self.index);
        out.append(num.as_str());
        proof {
            reveal_strlit(":");
            assert(out@ =~= spec_format_row_index(*self));
        }
        out
    }
}

} // verus!
