use vstd::prelude::*;

use crate::text::parse_u8_str;
use crate::text::spec_parse_u8;
use crate::text::spec_split_exact2;
use crate::text::spec_trim;
use crate::text::split_exact2_char;
use crate::text::str_eq;
use crate::text::trim_str;

verus! {

// Chart addresses in cell form: a chart name plus a (row, dealer-card)
// cell. Under this addressing a Split row is the value of one card of the
// pair, 1..10 with 1 for an Ace, and every parse failure is a bare
// `Err(())`.
/// The address of one chart cell: the chart and a (row, dealer-card) cell.
#[derive(Debug, Clone, Copy, PartialEq, Eq, Structural, Hash)]
pub struct TableIndex {
    pub table_type: TableType,
    pub cell: Cell,
}

#[derive(Debug, Clone, Copy, PartialEq, Eq, Structural, Hash)]
pub enum TableType {
    Hard,
    Soft,
    Split,
    Surrender,
}

/// A chart cell: a row (validated by the owning chart) and a dealer-card
/// column.
#[derive(Debug, Copy, Clone, PartialEq, Eq, Structural, Hash)]
pub struct Cell {
    pub row: u8,
    pub col: DealerCard,
}

/// A dealer up-card value in 1..10, where 1 denotes an Ace.
#[derive(Debug, Copy, Clone, PartialEq, Eq, Structural, Hash)]
pub struct DealerCard(u8);

/// The row policy of this addressing: Hard and Soft rows are totals in
/// [2, 21], Split rows are card values in [1, 10], Surrender rows are
/// totals in [2, 20].
pub open spec fn spec_row_ok(t: TableType, row: int) -> bool {
    match t {
        TableType::Hard => 2 <= row <= 21,
        TableType::Soft => 2 <= row <= 21,
        TableType::Split => 1 <= row <= 10,
        TableType::Surrender => 2 <= row <= 20,
    }
}

pub open spec fn spec_parse_tt(s: Seq<char>) -> Option<TableType> {
    if s == "hard"@ {
        Some(TableType::Hard)
    } else if s == "soft"@ {
        Some(TableType::Soft)
    } else if s == "split"@ {
        Some(TableType::Split)
    } else if s == "surrender"@ {
        Some(TableType::Surrender)
    } else {
        None
    }
}

/// A cell in text form, as (row, column value): `<row>,<col>` with
/// whitespace around either number ignored.
pub open spec fn spec_parse_cell(s: Seq<char>) -> Option<(u8, int)> {
    match spec_split_exact2(s, ',') {
        None => None,
        Some((l, r)) => match spec_parse_u8(spec_trim(l)) {
            None => None,
            Some(row) => match spec_parse_u8(spec_trim(r)) {
                None => None,
                Some(v) => if 1 <= v <= 10 {
                    Some((row, v as int))
                } else {
                    None
                },
            },
        },
    }
}

impl TableType {
    /// Accept a row number that this addressing's policy allows.
    fn range_check(self, row: u8) -> (r: Result<(), ()>)
        ensures
            r == if spec_row_ok(self, row as int) {
                Ok::<(), ()>(())
            } else {
                Err::<(), ()>(())
            },
    {
        match self {
            TableType::Hard | TableType::Soft => {
                if 2 <= row && row <= 21 {
                    Ok(())
                } else {
                    Err(())
                }
            },
            TableType::Split => {
                if 1 <= row && row <= 10 {
                    Ok(())
                } else {
                    Err(())
                }
            },
            TableType::Surrender => {
                if 2 <= row && row <= 20 {
                    Ok(())
                } else {
                    Err(())
                }
            },
        }
    }

    pub fn parse(s: &str) -> (r: Result<Self, ()>)
        ensures
            match spec_parse_tt(s@) {
                Some(t) => r == Ok::<TableType, ()>(t),
                None => r == Err::<TableType, ()>(()),
            },
    {
        if str_eq(s, "hard") {
            Ok(TableType::Hard)
        } else if str_eq(s, "soft") {
            Ok(TableType::Soft)
        } else if str_eq(s, "split") {
            Ok(TableType::Split)
        } else if str_eq(s, "surrender") {
            Ok(TableType::Surrender)
        } else {
            Err(())
        }
    }
}

impl DealerCard {
    pub closed spec fn spec_value(self) -> int {
        self.0 as int
    }

    /// Accept a dealer-card value in 1..10.
    pub fn new(val: u8) -> (r: Result<DealerCard, ()>)
        ensures
            1 <= val <= 10 ==> (r matches Ok(dc) && dc.spec_value() == val as int),
            !(1 <= val <= 10) ==> r == Err::<DealerCard, ()>(()),
    {
        if !(1 <= val && val <= 10) {
            return Err(());
        }
        Ok(DealerCard(val))
    }

    pub fn value(&self) -> (r: u8)
        ensures
            r as int == self.spec_value(),
    {
        self.0
    }

    /// Parse a dealer-card value; unlike a column index, 11 is out of range
    /// here.
    pub fn parse(s: &str) -> (r: Result<Self, ()>)
        ensures
            match spec_parse_u8(s@) {
                Some(v) => if 1 <= v <= 10 {
                    r matches Ok(dc) && dc.spec_value() == v as int
                } else {
                    r == Err::<DealerCard, ()>(())
                },
                None => r == Err::<DealerCard, ()>(()),
            },
    {
        match parse_u8_str(s) {
            None => Err(()),
            Some(v) => DealerCard::new(v),
        }
    }
}

impl Cell {
    /// A cell has no row policy of its own; the owning chart imposes one.
    pub fn new(row: u8, col: DealerCard) -> (r: Cell)
        ensures
            r.row == row,
            r.col == col,
    {
        Cell { row, col }
    }

    /// Parse `<row>,<col>`.
    pub fn parse(s: &str) -> (r: Result<Self, ()>)
        ensures
            match spec_parse_cell(s@) {
                Some((row, cv)) => (r matches Ok(cell) && cell.row == row && cell.col.spec_value()
                    == cv),
                None => r == Err::<Cell, ()>(()),
            },
    {
        let (left, right) = match split_exact2_char(s, ',') {
            None => {
                return Err(());
            },
            Some(p) => p,
        };
        let row = match parse_u8_str(trim_str(left)) {
            None => {
                return Err(());
            },
            Some(v) => v,
        };
        let col = match DealerCard::parse(trim_str(right)) {
            Err(_) => {
                return Err(());
            },
            Ok(dc) => dc,
        };
        Ok(Cell { row, col })
    }
}

impl TableIndex {
    /// Parse `<tabletype>:<row>,<col>`: exactly one `:`, a known chart
    /// name, a well-formed cell, and a row the chart's policy allows.
    pub fn parse(s: &str) -> (r: Result<Self, ()>)
        ensures
            match spec_split_exact2(s@, ':') {
                None => r == Err::<TableIndex, ()>(()),
                Some((a, b)) => match spec_parse_tt(spec_trim(a)) {
                    None => r == Err::<TableIndex, ()>(()),
                    Some(t) => match spec_parse_cell(spec_trim(b)) {
                        None => r == Err::<TableIndex, ()>(()),
                        Some((row, cv)) => if spec_row_ok(t, row as int) {
                            r matches Ok(ti) && ti.table_type == t && ti.cell.row == row
                                && ti.cell.col.spec_value() == cv
                        } else {
                            r == Err::<TableIndex, ()>(())
                        },
                    },
                },
            },
    {
        let (tt_raw, cell_raw) = match split_exact2_char(s, ':') {
            None => {
                return Err(());
            },
            Some(p) => p,
        };
        let tt_val = trim_str(tt_raw);
        let cell_val = trim_str(cell_raw);
        let table_type = match TableType::parse(tt_val) {
            Err(_) => {
                return Err(());
            },
            Ok(t) => t,
        };
        let cell = match Cell::parse(cell_val) {
            Err(_) => {
                return Err(());
            },
            Ok(c) => c,
        };
        match table_type.range_check(cell.row) {
            Err(_) => Err(()),
            Ok(_) => Ok(TableIndex { table_type, cell }),
        }
    }
}

} // verus!
