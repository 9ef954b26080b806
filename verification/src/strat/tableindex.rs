use vstd::prelude::*;

use vstd::string::StringExecFns;

use crate::bjerror::BjError;
use crate::strat::colindex::spec_parse_col;
use crate::strat::colindex::ColIndex;
use crate::strat::rowindex::spec_format_row_index;
use crate::strat::rowindex::spec_parse_row_index;
use crate::strat::rowindex::RowIndex;
use crate::strat::table_type::TableType;
use crate::text::dec_digits;
use crate::text::spec_split_once;
use crate::text::spec_trim;
use crate::text::split_once_char;
use crate::text::trim_str;

verus! {

/// The address of one cell in one strategy chart: a row (which also names
/// the chart) and a dealer-card column. Opaque, but convertible to and from
/// text so it can serve as a key.
#[derive(Debug, Copy, Clone, PartialEq, Eq, Structural, Hash)]
pub struct TableIndex {
    pub row: RowIndex,
    pub col: ColIndex,
}

/// The text form of a cell address: `<tabletype>:<row>,<col>`.
pub open spec fn spec_format_table_index(t: TableIndex) -> Seq<char> {
    spec_format_row_index(t.row) + seq![','] + dec_digits(t.col.spec_value())
}

impl TableIndex {
    pub fn table_type(&self) -> (r: TableType)
        ensures
            r == self.row.table_type,
    {
        self.row.table_type
    }

    pub fn row_index(&self) -> (r: u8)
        ensures
            r == self.row.index,
    {
        self.row.index
    }

    pub fn col_index(&self) -> (r: ColIndex)
        ensures
            r == self.col,
    {
        self.col
    }

    /// Parse `<tabletype>:<row>,<col>` with whitespace around the row and
    /// column parts ignored; a missing comma names the whole text, the other
    /// failures are the row's and column's own errors.
    pub fn parse(s: &str) -> (r: Result<Self, BjError>)
        ensures
            spec_split_once(s@, ',') is None ==> (r matches Err(BjError::BadTableIndex(m)) && m@
                == s@),
            (match spec_split_once(s@, ',') {
                Some((a, b)) => match spec_parse_row_index(spec_trim(a)) {
                    None => r is Err,
                    Some(ri) => match spec_parse_col(spec_trim(b)) {
                        None => r is Err,
                        Some(cv) => (r matches Ok(ti) && ti.row == ri && ti.col.spec_value()
                            == cv),
                    },
                },
                None => true,
            }),
    {
        let (row_str, col_str) = match split_once_char(s, ',') {
            None => {
                return Err(BjError::BadTableIndex(s.to_owned()));
            },
            Some(p) => p,
        };
        let row = match RowIndex::parse(trim_str(row_str)) {
            Ok(ri) => ri,
            Err(e) => {
                return Err(e);
            },
        };
        let col = match ColIndex::parse(trim_str(col_str)) {
            Ok(ci) => ci,
            Err(e) => {
                return Err(e);
            },
        };
        Ok(TableIndex { row, col })
    }

    /// The address as `<tabletype>:<row>,<col>`, with no extra whitespace.
    pub fn to_string(&self) -> (r: String)
        ensures
            r@ == spec_format_table_index(*self),
    {
        let mut out = self.row.to_string();
        out.append(",");
        let col = self.col.to_string();
        out.append(col.as_str());
        proof {
            reveal_strlit(",");
            assert(out@ =~= spec_format_table_index(*self));
        }
        out
    }
}

/// A valid cell address round-trips losslessly through format and parse:
/// the formatted text splits back into exactly the row and column texts,
/// and each piece reads back as the part it was formatted from — so
/// `parse` of `to_string` returns the address itself.
pub proof fn lemma_table_index_round_trip(t: TableIndex)
    requires
        crate::strat::table_type::spec_range_ok(t.row.table_type, t.row.index as int),
        1 <= t.col.spec_value() <= 10,
    ensures
        ({
            let s = spec_format_table_index(t);
            let row_text = spec_format_row_index(t.row);
            let col_text = dec_digits(t.col.spec_value());
            &&& spec_split_once(s, ',') == Some((row_text, col_text))
            &&& spec_parse_row_index(spec_trim(row_text)) == Some(t.row)
            &&& spec_parse_col(spec_trim(col_text)) == Some(t.col.spec_value())
        }),
{
    reveal_strlit("hard");
    reveal_strlit("soft");
    reveal_strlit("split");
    reveal_strlit("surrender");
    let s = spec_format_table_index(t);
    let tt = crate::strat::table_type::spec_format_table_type(t.row.table_type);
    let row_digits = dec_digits(t.row.index as int);
    let row_text = spec_format_row_index(t.row);
    let col_text = dec_digits(t.col.spec_value());
    crate::text::lemma_dec_digits_value(t.row.index as int);
    crate::text::lemma_dec_digits_value(t.col.spec_value());
    assert forall|i: int| 0 <= i < row_text.len() implies row_text[i] != ',' by {
        if i < tt.len() {
            assert(row_text[i] == tt[i]);
        } else if i == tt.len() {
            assert(row_text[i] == ':');
        } else {
            assert(row_text[i] == row_digits[i - tt.len() - 1]);
            assert(crate::text::is_digit(row_text[i]));
        }
    }
    assert(s =~= row_text + (seq![','] + col_text));
    crate::text::lemma_index_of_char_concat(row_text, seq![','] + col_text, ',');
    assert(s.subrange(0, row_text.len() as int) =~= row_text);
    assert(s.subrange(row_text.len() as int + 1, s.len() as int) =~= col_text);
    assert(!crate::text::is_space(row_text[0]));
    assert(row_text.last() == row_digits.last());
    assert(!crate::text::is_space(row_text[row_text.len() - 1]));
    crate::text::lemma_trim_subranges(row_text, 0, row_text.len() as int);
    assert(row_text.subrange(0, row_text.len() as int) =~= row_text);
    assert(!crate::text::is_space(col_text[0]));
    assert(!crate::text::is_space(col_text[col_text.len() - 1]));
    crate::text::lemma_trim_subranges(col_text, 0, col_text.len() as int);
    assert(col_text.subrange(0, col_text.len() as int) =~= col_text);
    crate::strat::rowindex::lemma_row_index_round_trip(t.row);
    crate::strat::colindex::lemma_col_round_trip(t.col.spec_value() as u8);
}

/// Combine a validated row and column into a cell address.
pub fn new_table_index(row: RowIndex, col: ColIndex) -> (r: TableIndex)
    ensures
        r.row == row,
        r.col == col,
{
    TableIndex { row, col }
}

} // verus!
