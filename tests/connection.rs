use song_sync::connection::{read_admission, NetworkingError, PacketManager, ServerConnectMessage};

#[test]
fn admission_bytes() {
    assert_eq!(ServerConnectMessage::from_consent(true).to_byte(), 255);
    assert_eq!(ServerConnectMessage::from_consent(false).to_byte(), 0);
    assert!(matches!(read_admission(255), Ok(true)));
    assert!(matches!(read_admission(0), Ok(false)));
    match read_admission(7) {
        Err(NetworkingError::UnexpectedMessage(m)) => assert_eq!(m, "7"),
        other => panic!("unexpected {:?}", other),
    }
}

#[test]
fn first_connection_retires_nothing() {
    let mut m = PacketManager::new();
    assert_eq!(m.send_target(), None);
    m.connect_to_app();
    let plan = m.connect();
    assert_eq!(plan.retire, None);
    assert_eq!(m.send_target(), None);
    assert_eq!(m.install(), plan.install);
    assert_eq!(m.send_target(), Some(plan.install));
}

#[test]
fn second_connection_supersedes_first() {
    let mut m = PacketManager::new();
    m.connect_to_app();
    let first = m.connect();
    m.install();
    let second = m.connect();
    assert_eq!(second.retire, Some(first.install));
    assert_ne!(second.install, first.install);
    // neither queue is reachable while the first connection winds down
    assert_eq!(m.send_target(), None);
    assert_eq!(m.retiring, Some(first.install));
    m.retired();
    assert_eq!(m.send_target(), None);
    assert_eq!(m.install(), second.install);
    assert_eq!(m.send_target(), Some(second.install));
    let third = m.connect();
    assert_eq!(third.retire, Some(second.install));
    assert_ne!(third.install, first.install);
}
