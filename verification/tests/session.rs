use bytes::BytesMut;
use recsync::announce::announcement_bytes;
use recsync::codec::MessageCodec;
use recsync::inventory::{IpFamily, SourceAddress};
use recsync::session::{SessionError, SessionMachine, SessionState};
use recsync::types::{
    AddInfo, AddRecord, ClientGreet, ClientMessage, DelRecord, Message, Ping, Pong, ServerGreet,
    ServerKey, ServerMessage, UploadDone, WireId,
};

fn encode_message(message: Message) -> BytesMut {
    let mut codec = MessageCodec;
    let mut buf = BytesMut::new();
    codec.encode(message, &mut buf).unwrap();
    buf
}

#[test]
fn test_session_greeting() {
    let client_key = 0xbeef;

    // The session first writes a ServerGreet, then reads a ClientGreet.
    let written = encode_message(SessionMachine::greeting());
    assert_eq!(written, encode_message(Message::Server(ServerMessage::ServerGreet(ServerGreet))));
    let mut incoming = encode_message(Message::Client(ClientMessage::ClientGreet(ClientGreet {
        serv_key: ServerKey(client_key),
    })));

    let mut session = SessionMachine::new(None);
    let mut codec = MessageCodec;
    while let Some(message) = codec.decode(&mut incoming).unwrap() {
        assert_eq!(session.handle_message(message).unwrap(), None);
    }

    assert_eq!(session.state, SessionState::Upload);
    assert_eq!(session.client_key, Some(client_key));
}

#[test]
fn session_runs_through_its_phases() {
    let mut s = SessionMachine::new(None);
    s.handle_message(Message::Client(ClientMessage::ClientGreet(ClientGreet { serv_key: ServerKey(1) })))
        .unwrap();
    let add = AddRecord { recid: 1, atype: 0, rtype: "ai".to_string(), rname: "R".to_string() };
    assert_eq!(s.handle_message(Message::Client(ClientMessage::AddRecord(add))).unwrap(), None);
    let info = AddInfo { recid: 1, key: "k".to_string(), value: "v".to_string() };
    assert_eq!(s.handle_message(Message::Client(ClientMessage::AddInfo(info))).unwrap(), None);
    assert_eq!(s.handle_message(Message::Client(ClientMessage::DelRecord(DelRecord { recid: 1 }))).unwrap(), None);
    assert_eq!(s.state, SessionState::Upload);
    s.handle_message(Message::Client(ClientMessage::UploadDone(UploadDone))).unwrap();
    assert_eq!(s.state, SessionState::PingPong);
    let reply = s.handle_message(Message::Server(ServerMessage::Ping(Ping { nonce: 77 }))).unwrap();
    assert_eq!(reply, Some(Message::Client(ClientMessage::Pong(Pong { nonce: 77 }))));
    assert_eq!(s.state, SessionState::PingPong);
    assert_eq!(s.client_key, Some(1));
}

#[test]
fn session_refuses_out_of_phase_messages() {
    let mut s = SessionMachine::new(None);
    let r = s.handle_message(Message::Client(ClientMessage::UploadDone(UploadDone)));
    assert_eq!(r, Err(SessionError::UnexpectedMessage(SessionState::Greeting)));
    assert_eq!(s.state, SessionState::Greeting);
    assert_eq!(s.client_key, None);

    s.handle_message(Message::Client(ClientMessage::ClientGreet(ClientGreet { serv_key: ServerKey(2) })))
        .unwrap();
    let r = s.handle_message(Message::Server(ServerMessage::Ping(Ping { nonce: 1 })));
    assert_eq!(r, Err(SessionError::UnexpectedMessage(SessionState::Upload)));
    assert_eq!(s.state, SessionState::Upload);

    s.handle_message(Message::Client(ClientMessage::UploadDone(UploadDone))).unwrap();
    let r = s.handle_message(Message::Client(ClientMessage::Pong(Pong { nonce: 1 })));
    assert_eq!(r, Err(SessionError::UnexpectedMessage(SessionState::PingPong)));
    assert_eq!(s.state, SessionState::PingPong);
}

#[test]
fn announcement_layout() {
    let buf = announcement_bytes([127, 0, 0, 1], 12345, 54321);
    assert_eq!(buf.len(), 16);
    assert_eq!(u16::from_be_bytes([buf[0], buf[1]]), 0x5243);
    assert_eq!(&buf[4..8], &[127, 0, 0, 1]);
    assert_eq!(u16::from_be_bytes([buf[8], buf[9]]), 12345);
    assert_eq!(u32::from_be_bytes([buf[12], buf[13], buf[14], buf[15]]), 54321);
    assert_eq!(&buf[2..4], &[0, 0]);
    assert_eq!(&buf[10..12], &[0, 0]);
}

#[test]
fn session_gathers_the_upload() {
    let source = SourceAddress { ip: "127.0.0.1".to_string(), port: 5052, family: IpFamily::V4 };
    let mut s = SessionMachine::new(Some(source));
    s.handle_message(Message::Client(ClientMessage::ClientGreet(ClientGreet { serv_key: ServerKey(9999) })))
        .unwrap();
    let add = |recid: u32, atype: u8, rtype: &str, rname: &str| {
        Message::Client(ClientMessage::AddRecord(AddRecord {
            recid,
            atype,
            rtype: rtype.to_string(),
            rname: rname.to_string(),
        }))
    };
    let info = |recid: u32, key: &str, value: &str| {
        Message::Client(ClientMessage::AddInfo(AddInfo { recid, key: key.to_string(), value: value.to_string() }))
    };
    s.handle_message(add(1, 0, "ai", "TEST:REC:1")).unwrap();
    s.handle_message(add(1, 1, "", "TEST:ALIAS:1")).unwrap();
    s.handle_message(info(1, "desc", "Description 1")).unwrap();
    s.handle_message(info(0, "IOCNAME", "test-ioc-integration")).unwrap();
    s.handle_message(add(2, 0, "bo", "TEST:REC:2")).unwrap();
    s.handle_message(Message::Client(ClientMessage::DelRecord(DelRecord { recid: 2 }))).unwrap();
    s.handle_message(Message::Client(ClientMessage::DelRecord(DelRecord { recid: 7 }))).unwrap();
    // Nothing is handed over before the upload is done.
    assert!(s.take_completed().is_none());
    s.handle_message(Message::Client(ClientMessage::UploadDone(UploadDone))).unwrap();
    // Nothing is gathered outside the upload phase.
    s.handle_message(add(3, 0, "ai", "LATE")).unwrap_err();

    let tx = s.take_completed().unwrap();
    assert_eq!(tx.updates.len(), 2);
    let update = tx.updates.get(WireId(1)).unwrap();
    assert_eq!(update.name.as_deref(), Some("TEST:REC:1"));
    assert_eq!(update.rtype.as_deref(), Some("ai"));
    assert!(update.aliases.contains(&"TEST:ALIAS:1".to_string()));
    assert_eq!(update.properties.get("desc"), Some(&"Description 1".to_string()));
    assert_eq!(tx.client_infos.get("IOCNAME"), Some(&"test-ioc-integration".to_string()));
    assert!(tx.records_to_delete.contains("TEST:REC:2"));
    assert_eq!(tx.records_to_delete.len(), 1);
    assert_eq!(tx.source_address.as_ref().unwrap().port, 5052);

    // The upload is handed over once, and the session starts gathering anew
    // for the same client.
    assert!(s.take_completed().is_none());
    assert_eq!(s.transaction.updates.len(), 0);
    assert_eq!(s.transaction.source_address.as_ref().unwrap().ip, "127.0.0.1");
}
