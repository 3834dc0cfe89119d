use bytes::BytesMut;
use recsync::channelfinder::{CFChannel, CFProperty};
use recsync::codec::{DecodeLimit, MessageCodec, ServerCodec};
use recsync::config::{BackendConfig, Config};
use recsync::inventory::{IpFamily, RecordUpdate, SourceAddress, Transaction};
use recsync::session::SessionMachine;
use recsync::types::{
    AddRecord, ClientGreet, ClientMessage, Message, MessageID, Ping, ServerKey, ServerMessage, UploadDone, WireId,
};

const ALL_IDS: [MessageID; 8] = [
    MessageID::ServerGreet,
    MessageID::ClientGreet,
    MessageID::Ping,
    MessageID::Pong,
    MessageID::AddRecord,
    MessageID::DelRecord,
    MessageID::UploadDone,
    MessageID::AddInfo,
];

#[test]
fn message_ids_roundtrip_and_are_distinct() {
    for id in ALL_IDS {
        assert_eq!(MessageID::try_from(u16::from(id)).unwrap(), id);
    }
    for a in ALL_IDS {
        for b in ALL_IDS {
            assert_eq!(u16::from(a) == u16::from(b), a == b);
        }
    }
    for v in [0u16, 7, 0x8000, 0x8003, 0xffff] {
        assert!(MessageID::try_from(v).is_err());
    }
}

#[test]
fn message_decoder_ignores_later_bytes() {
    let mut a = BytesMut::from(&[0x52u8, 0x43, 0x80, 0x01, 0, 0, 0, 1, 0][..]);
    let mut b = BytesMut::from(&[0x52u8, 0x43, 0x80, 0x01, 0, 0, 0, 1, 0, 0x52, 0x43][..]);
    let ra = MessageCodec.decode(&mut a).unwrap();
    let rb = MessageCodec.decode(&mut b).unwrap();
    assert_eq!(ra, rb);
    assert!(a.is_empty());
    assert_eq!(b.to_vec(), vec![0x52, 0x43]);
}

#[test]
fn decode_limits() {
    let short_ping = BytesMut::from(&[0x52u8, 0x43, 0x80, 0x02, 0, 0, 0, 0][..]);
    assert_eq!(ServerCodec.decode_limit(&short_ping), Some(DecodeLimit::ShortPayload));
    assert_eq!(MessageCodec.decode_limit(&short_ping), Some(DecodeLimit::ShortPayload));
    let pong = BytesMut::from(&[0x52u8, 0x43, 0x00, 0x02, 0, 0, 0, 4, 0, 0, 0, 1][..]);
    assert_eq!(ServerCodec.decode_limit(&pong), None);
    assert_eq!(MessageCodec.decode_limit(&pong), None);
    let ping = BytesMut::from(&[0x52u8, 0x43, 0x80, 0x02, 0, 0, 0, 4, 0, 0, 0, 1][..]);
    assert_eq!(MessageCodec.decode_limit(&ping), None);
    let partial = BytesMut::from(&[0x52u8, 0x43, 0x00, 0x02][..]);
    assert_eq!(MessageCodec.decode_limit(&partial), None);
    let unknown = BytesMut::from(&[0x52u8, 0x43, 0x12, 0x34, 0, 0, 0, 0][..]);
    assert_eq!(MessageCodec.decode_limit(&unknown), None);
    let mut p = ping.clone();
    assert_eq!(
        MessageCodec.decode(&mut p).unwrap(),
        Some(Message::Server(ServerMessage::Ping(Ping { nonce: 1 })))
    );
}

#[test]
fn transactions_clone() {
    let mut tx = Transaction::new();
    tx.source_address = Some(SourceAddress { ip: "1.2.3.4".to_string(), port: 9, family: IpFamily::V4 });
    tx.client_infos.insert("a".to_string(), "b".to_string());
    let mut u = RecordUpdate::default();
    u.name = Some("R".to_string());
    tx.updates.insert(WireId(5), u);
    tx.records_to_delete.insert("X".to_string());
    let c = tx.clone();
    assert_eq!(c.client_infos.get("a"), Some(&"b".to_string()));
    assert_eq!(c.updates.entry(0).0, WireId(5));
    assert_eq!(c.updates.get(WireId(5)).unwrap().name.as_deref(), Some("R"));
    assert!(c.records_to_delete.contains("X"));
    assert!(c.connected);
    assert!(!c.initial);
}

#[test]
fn configuration_and_channels_clone() {
    let c = Config {
        server_ip: "1.2.3.4".to_string(),
        server_port: 7,
        server_key: recsync::types::ServerKey(1),
        backend: BackendConfig::Sqlite { db_url: "sqlite://a".to_string() },
    };
    let d = c.clone();
    assert_eq!(d.server_ip, "1.2.3.4");
    assert!(matches!(d.backend, BackendConfig::Sqlite { ref db_url } if db_url == "sqlite://a"));
    let ch = CFChannel {
        name: "N".to_string(),
        owner: "o".to_string(),
        properties: vec![CFProperty { name: "p".to_string(), owner: "o".to_string(), value: "v".to_string() }],
    };
    let e = ch.clone();
    assert_eq!(e.properties[0].value, "v");
    assert_eq!(e.name, "N");
}

#[test]
fn client_encoding_appends_one_frame() {
    let mut dst = BytesMut::from(&[7u8, 8, 9][..]);
    let msg = ClientMessage::AddRecord(AddRecord {
        recid: 5,
        atype: 0,
        rtype: "ai".to_string(),
        rname: "X:Y".to_string(),
    });
    MessageCodec.encode_client(msg, &mut dst).unwrap();
    let bytes = &dst[..];
    assert_eq!(&bytes[..3], &[7u8, 8, 9]);
    let frame = &bytes[3..];
    assert_eq!(&frame[..2], &[0x52u8, 0x43]);
    assert_eq!(u16::from_be_bytes([frame[2], frame[3]]), u16::from(MessageID::AddRecord));
    let len = u32::from_be_bytes([frame[4], frame[5], frame[6], frame[7]]) as usize;
    assert_eq!(len, frame.len() - 8);
    assert_eq!(len, 8 + 2 + 3);
}

#[test]
fn upload_is_handed_over_only_when_it_ends() {
    let mut s = SessionMachine::new(None);
    // An UploadDone before the greeting is refused and hands nothing over.
    assert!(s.handle_message(Message::Client(ClientMessage::UploadDone(UploadDone))).is_err());
    assert!(s.completed.is_none());
    s.handle_message(Message::Client(ClientMessage::ClientGreet(ClientGreet { serv_key: ServerKey(1) })))
        .unwrap();
    assert!(s.completed.is_none());
    s.handle_message(Message::Client(ClientMessage::UploadDone(UploadDone))).unwrap();
    assert!(s.completed.is_some());
    assert!(s.take_completed().is_some());
    // In the ping-pong phase a ping is answered and nothing is handed over.
    s.handle_message(Message::Server(ServerMessage::Ping(Ping { nonce: 3 }))).unwrap();
    assert!(s.completed.is_none());
}
