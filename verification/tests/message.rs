use ascension_army::message::GameMessage;

#[test]
fn test_game_message_send_and_show() {
    let mut log = GameMessage::default();
    assert!(log.send("first"));
    assert!(log.send("second"));
    assert_eq!(Some("second".to_string()), log.show());
    assert_eq!(Some("first".to_string()), log.show());
    assert_eq!(None, log.show());
}

#[test]
fn test_game_message_lock_refuses_messages() {
    let mut log = GameMessage::default();
    log.lock();
    assert!(!log.send("dropped"));
    assert_eq!(None, log.show());
    log.unlock();
    assert!(log.send("kept"));
    assert_eq!(Some("kept".to_string()), log.show());
}
