use bjsc::strat::cellindex::Cell;
use bjsc::strat::cellindex::DealerCard;
use bjsc::strat::cellindex::TableIndex;
use bjsc::strat::cellindex::TableType;

#[test]
fn test_hard_index() {
    assert_eq!(
        TableIndex {
            table_type: TableType::Hard,
            cell: Cell { row: 3, col: DealerCard::new(4).unwrap() },
        },
        TableIndex::parse("hard:3,4").unwrap()
    );
    assert_eq!(
        TableIndex {
            table_type: TableType::Hard,
            cell: Cell { row: 8, col: DealerCard::new(1).unwrap() },
        },
        TableIndex::parse("  hard   :   8   ,    1   ").unwrap()
    );

    assert_eq!(Err(()), TableIndex::parse("hard:4"));
    assert_eq!(Err(()), TableIndex::parse("hard:4,8:8"));
    assert_eq!(Err(()), TableIndex::parse("hard:1,1"));
    assert_eq!(Err(()), TableIndex::parse("hard:22,1"));
    assert_eq!(Err(()), TableIndex::parse("hard:1,22"));
}

#[test]
fn test_soft_index() {
    assert_eq!(
        TableIndex {
            table_type: TableType::Soft,
            cell: Cell { row: 3, col: DealerCard::new(4).unwrap() },
        },
        TableIndex::parse("soft:3,4").unwrap()
    );
    assert_eq!(
        TableIndex {
            table_type: TableType::Soft,
            cell: Cell { row: 8, col: DealerCard::new(1).unwrap() },
        },
        TableIndex::parse("  soft   :   8   ,    1   ").unwrap()
    );

    assert_eq!(Err(()), TableIndex::parse("soft:4"));
    assert_eq!(Err(()), TableIndex::parse("soft:4,8:8"));
    assert_eq!(Err(()), TableIndex::parse("soft:1,1"));
    assert_eq!(Err(()), TableIndex::parse("soft:22,1"));
    assert_eq!(Err(()), TableIndex::parse("soft:1,22"));
}

#[test]
fn test_split_index() {
    assert_eq!(
        TableIndex {
            table_type: TableType::Split,
            cell: Cell { row: 3, col: DealerCard::new(4).unwrap() },
        },
        TableIndex::parse("split:3,4").unwrap()
    );
    assert_eq!(
        TableIndex {
            table_type: TableType::Split,
            cell: Cell { row: 8, col: DealerCard::new(1).unwrap() },
        },
        TableIndex::parse("  split   :   8   ,    1   ").unwrap()
    );

    assert_eq!(Err(()), TableIndex::parse("split:4"));
    assert_eq!(Err(()), TableIndex::parse("split:4,8:8"));
    assert_eq!(Err(()), TableIndex::parse("split:0,1"));
    assert_eq!(Err(()), TableIndex::parse("split:11,1"));
    assert_eq!(Err(()), TableIndex::parse("split:10,22"));
}

#[test]
fn tableindex_test_parse_table_index() {
    assert_eq!(TableType::Hard, TableType::parse("hard").unwrap());
    assert_eq!(TableType::Soft, TableType::parse("soft").unwrap());
    assert_eq!(TableType::Split, TableType::parse("split").unwrap());
    assert_eq!(TableType::Surrender, TableType::parse("surrender").unwrap());
    assert_eq!(Err(()), TableType::parse("hards"));
}

#[test]
fn test_new_dealer_card() {
    for v in 1u8..=10 {
        let dc = DealerCard::new(v).unwrap();
        assert_eq!(v, dc.value());
    }
    assert_eq!(Err(()), DealerCard::new(0));
    assert_eq!(Err(()), DealerCard::new(11));
}

#[test]
fn test_parse_dealer_card() {
    assert_eq!(DealerCard::new(1).unwrap(), DealerCard::parse("1").unwrap());
    assert_eq!(DealerCard::new(1).unwrap(), DealerCard::parse("01").unwrap());
    assert_eq!(DealerCard::new(10).unwrap(), DealerCard::parse("10").unwrap());

    assert_eq!(Err(()), DealerCard::parse("0"));
    assert_eq!(Err(()), DealerCard::parse("11"));
    assert_eq!(Err(()), DealerCard::parse("hard"));
}

#[test]
fn test_parse_cell() {
    let dc_ace = DealerCard::new(1).unwrap();
    let dc_five = DealerCard::new(5).unwrap();

    assert_eq!(Cell::new(1, dc_ace), Cell::parse("1,1").unwrap());
    assert_eq!(Cell::new(7, dc_five), Cell::parse("7,5").unwrap());

    assert_eq!(Cell::new(50, dc_ace), Cell::parse("   50  , 1 ").unwrap());

    // Errors
    assert_eq!(Err(()), Cell::parse(""));
    assert_eq!(Err(()), Cell::parse("x, 5"));
    assert_eq!(Err(()), Cell::parse("5, x"));
    assert_eq!(Err(()), Cell::parse("5, 6, 7"));
}
