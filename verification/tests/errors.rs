use recsync::error::ProtocolError;
use recsync::session::{SessionError, SessionState};

#[test]
fn error_texts() {
    assert_eq!(ProtocolError::UnknownMessageId(0x0001).to_string(), "Unknown message ID: 0x0001");
    assert_eq!(ProtocolError::UnknownMessageId(0xabcd).to_string(), "Unknown message ID: 0xabcd");
    assert_eq!(ProtocolError::InvalidWireId.to_string(), "Invalid wire ID");
    assert_eq!(
        ProtocolError::InsufficientData { expected: 12, got: 3 }.to_string(),
        "Insufficient data: expected 12 bytes, got 3"
    );
    assert_eq!(
        ProtocolError::InvalidMessageFormat("bad".to_string()).to_string(),
        "Invalid message format: bad"
    );
    let io = std::io::Error::new(std::io::ErrorKind::Other, "test");
    assert_eq!(ProtocolError::from(io).to_string(), "IO error: test");
}

#[test]
fn session_error_texts() {
    assert_eq!(
        SessionError::UnexpectedMessage(SessionState::Greeting).to_string(),
        "Unexpected message in Greeting state"
    );
    assert_eq!(
        SessionError::UnexpectedMessage(SessionState::Upload).to_string(),
        "Unexpected message in Upload state"
    );
    assert_eq!(
        SessionError::UnexpectedMessage(SessionState::PingPong).to_string(),
        "Unexpected message in PingPong state"
    );
}
