use ot_ews::session::{peer_log_path, EchoAction, EchoPhase, EchoSession, ReadEvent, SessionEnd};

#[test]
fn echoes_every_chunk_whole() {
    let mut s = EchoSession::new();
    assert_eq!(s.on_read(ReadEvent::Data(vec![1, 2, 3])), EchoAction::Echo(vec![1, 2, 3]));
    assert_eq!(s.phase, EchoPhase::Writing);
    s.on_written(true);
    assert_eq!(s.phase, EchoPhase::Reading);
    let big: Vec<u8> = (0..1024).map(|i| (i % 251) as u8).collect();
    assert_eq!(s.on_read(ReadEvent::Data(big.clone())), EchoAction::Echo(big));
    s.on_written(true);
    assert_eq!(s.on_read(ReadEvent::Data(vec![])), EchoAction::End(SessionEnd::PeerClosed));
    assert_eq!(s.phase, EchoPhase::Ended(SessionEnd::PeerClosed));
}

#[test]
fn idle_timeout_ends_without_error() {
    let mut s = EchoSession::new();
    let a = s.on_read(ReadEvent::TimedOut);
    assert_eq!(a, EchoAction::End(SessionEnd::TimedOut));
    assert!(!SessionEnd::TimedOut.is_error());
    assert!(!SessionEnd::PeerClosed.is_error());
}

#[test]
fn read_failure_is_an_error() {
    let mut s = EchoSession::new();
    assert_eq!(s.on_read(ReadEvent::Failed), EchoAction::End(SessionEnd::IoError));
    assert!(SessionEnd::IoError.is_error());
}

#[test]
fn failed_write_ends_with_error() {
    let mut s = EchoSession::new();
    s.on_read(ReadEvent::Data(b"hello".to_vec()));
    s.on_written(false);
    assert_eq!(s.phase, EchoPhase::Ended(SessionEnd::IoError));
}

#[test]
fn peer_log_path_names_peer() {
    assert_eq!(peer_log_path("127.0.0.1"), "logs/127.0.0.1.log");
}
