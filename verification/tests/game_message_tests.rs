use bjsc::GameMessage;

#[test]
fn test_game_message_constructors() {
    match GameMessage::correct("well done".to_string()) {
        GameMessage::Correct(m) => assert_eq!("well done", m),
        _ => panic!("expected a correct message"),
    }
    match GameMessage::wrong("not quite".to_string()) {
        GameMessage::Wrong(m) => assert_eq!("not quite", m),
        _ => panic!("expected a wrong message"),
    }
}

#[test]
fn test_game_message_default_is_silent() {
    assert!(matches!(GameMessage::default(), GameMessage::Silent));
}
