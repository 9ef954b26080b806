use bjsc::strat::colindex::ColIndex;
use bjsc::strat::rowindex::RowIndex;
use bjsc::strat::table_type::TableType;
use bjsc::strat::tableindex::new_table_index;
use bjsc::strat::tableindex::TableIndex;
use bjsc::BjError;

#[test]
fn test_table_index_parse() {
    let ti = TableIndex::parse("hard:5,6").unwrap();
    assert_eq!(TableType::Hard, ti.table_type());
    assert_eq!(5, ti.row_index());
    assert_eq!(6, ti.col_index().value());

    let ti = TableIndex::parse("  split:8 , 1 ").unwrap();
    assert_eq!(TableType::Split, ti.table_type());
    assert_eq!(8, ti.row_index());
    assert_eq!(1, ti.col_index().value());
}

#[test]
fn test_table_index_parse_errors() {
    assert_eq!(
        Err(BjError::BadTableIndex("hard:5".to_string())),
        TableIndex::parse("hard:5")
    );
    assert!(TableIndex::parse("hards:5,6").is_err());
    assert!(TableIndex::parse("hard:23,6").is_err());
    assert!(TableIndex::parse("hard:5,12").is_err());
    assert!(TableIndex::parse("split:7,6").is_err());
}

#[test]
fn test_table_index_round_trip() {
    for text in ["hard:5,6", "soft:13,1", "split:16,10", "surrender:14,9"] {
        let ti = TableIndex::parse(text).unwrap();
        assert_eq!(text, ti.to_string());
        assert_eq!(ti, TableIndex::parse(&ti.to_string()).unwrap());
    }
}

#[test]
fn test_new_table_index() {
    let row = RowIndex::parse("hard:5").unwrap();
    let col = ColIndex::parse("6").unwrap();
    let index = new_table_index(row, col);
    assert_eq!(index, TableIndex::parse("hard:5,6").unwrap());
}

#[test]
fn test_col_index_parse() {
    assert_eq!(1, ColIndex::parse("1").unwrap().value());
    assert_eq!(10, ColIndex::parse("10").unwrap().value());
    // A column accepts 11 as the Ace at full value and folds it to 1.
    assert_eq!(1, ColIndex::parse("11").unwrap().value());
    assert_eq!(
        Err(BjError::ValueOutOfRange(0, 1, 10)),
        ColIndex::parse("0")
    );
    assert_eq!(
        Err(BjError::ValueOutOfRange(12, 1, 10)),
        ColIndex::parse("12")
    );
    assert_eq!(
        Err(BjError::ParseIntError("x".to_string())),
        ColIndex::parse("x")
    );
}
