use bjsc::strat::table_type::TableType;
use bjsc::BjError;

#[test]
fn table_type_test_parse_table_index() {
    assert_eq!(TableType::Hard, TableType::parse("hard").unwrap());
    assert_eq!(TableType::Soft, TableType::parse("soft").unwrap());
    assert_eq!(TableType::Split, TableType::parse("split").unwrap());
    assert_eq!(TableType::Surrender, TableType::parse("surrender").unwrap());
    assert_eq!(
        Err(BjError::UnknownTableType("hards".to_string())),
        TableType::parse("hards")
    );
}

#[test]
fn test_hard_range_check() {
    assert!(TableType::Hard.range_check(0).is_err());
    assert!(TableType::Hard.range_check(1).is_err());
    assert!(TableType::Hard.range_check(2).is_ok());
    assert!(TableType::Hard.range_check(21).is_ok());
    assert!(TableType::Hard.range_check(22).is_err());
}

#[test]
fn test_soft_range_check() {
    assert!(TableType::Soft.range_check(0).is_err());
    assert!(TableType::Soft.range_check(1).is_err());
    assert!(TableType::Soft.range_check(2).is_ok());
    assert!(TableType::Soft.range_check(21).is_ok());
    assert!(TableType::Soft.range_check(22).is_err());
}

#[test]
fn test_split_range_check() {
    assert!(TableType::Split.range_check(0).is_err());
    assert!(TableType::Split.range_check(1).is_err());
    assert!(TableType::Split.range_check(2).is_ok());
    assert!(TableType::Split.range_check(10).is_ok());
    assert!(TableType::Split.range_check(11).is_err());
    assert!(TableType::Split.range_check(20).is_ok());
    assert!(TableType::Split.range_check(21).is_err());
    assert!(TableType::Split.range_check(22).is_err());
}

#[test]
fn test_surrender_range_check() {
    assert!(TableType::Surrender.range_check(0).is_err());
    assert!(TableType::Surrender.range_check(1).is_err());
    assert!(TableType::Surrender.range_check(2).is_ok());
    assert!(TableType::Surrender.range_check(20).is_ok());
    assert!(TableType::Surrender.range_check(21).is_err());
}

#[test]
fn test_table_type_round_trip() {
    for t in [
        TableType::Hard,
        TableType::Soft,
        TableType::Split,
        TableType::Surrender,
    ] {
        assert_eq!(t, TableType::parse(&t.to_string()).unwrap());
    }
}
