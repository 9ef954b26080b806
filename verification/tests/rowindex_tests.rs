use bjsc::strat::rowindex::RowIndex;
use bjsc::strat::table_type::TableType;
use bjsc::BjError;

#[test]
fn test_new_row_index() {
    assert_eq!(
        RowIndex { table_type: TableType::parse("hard").unwrap(), index: 3 },
        RowIndex::new(TableType::Hard, 3).unwrap()
    );
}

#[test]
fn test_parse() {
    assert_eq!(
        RowIndex::new(TableType::Hard, 3).unwrap(),
        RowIndex::parse("hard:3").unwrap()
    );
}

#[test]
fn test_range_check_works() {
    assert_eq!(
        Err(BjError::ValueOutOfRange(0, 2, 21)),
        RowIndex::parse("hard:0")
    );
}

#[test]
fn test_row_index_parse_errors() {
    assert_eq!(
        Err(BjError::BadRowIndex("hard".to_string())),
        RowIndex::parse("hard")
    );
    assert_eq!(
        Err(BjError::UnknownTableType("soft ".to_string())),
        RowIndex::parse("soft :3")
    );
    assert_eq!(
        Err(BjError::ParseIntError("x".to_string())),
        RowIndex::parse("soft:x")
    );
}

#[test]
fn test_row_index_to_string() {
    assert_eq!("hard:3", RowIndex::new(TableType::Hard, 3).unwrap().to_string());
    assert_eq!(
        "surrender:20",
        RowIndex::new(TableType::Surrender, 20).unwrap().to_string()
    );
}
