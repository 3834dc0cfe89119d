use bytes::BytesMut;
use recsync::codec::{
    frame_fits, ClientCodec, MessageCodec, ServerCodec, MSG_MAGIC_ID, SERVER_ANNOUNCEMENT_UDP_PORT,
};
use recsync::error::ProtocolError;
use recsync::types::{
    AddInfo, AddRecord, ClientGreet, ClientMessage, DelRecord, Message, Ping, Pong, ServerGreet, ServerKey,
    ServerMessage, UploadDone,
};

fn encoded(msg: ClientMessage) -> Vec<u8> {
    let mut codec = ClientCodec;
    let mut dst = BytesMut::new();
    codec.encode(msg, &mut dst).unwrap();
    dst.to_vec()
}

#[test]
fn constants_match_the_protocol() {
    assert_eq!(MSG_MAGIC_ID, 0x5243);
    assert_eq!(SERVER_ANNOUNCEMENT_UDP_PORT, 5049);
}

#[test]
fn client_greet_frame_bytes() {
    let f = encoded(ClientMessage::ClientGreet(ClientGreet { serv_key: ServerKey(0x12345678) }));
    assert_eq!(f, vec![0x52, 0x43, 0x00, 0x01, 0, 0, 0, 8, 0, 0, 0, 0, 0x12, 0x34, 0x56, 0x78]);
}

#[test]
fn pong_frame_bytes() {
    let f = encoded(ClientMessage::Pong(Pong { nonce: 0xdeadbeef }));
    assert_eq!(f, vec![0x52, 0x43, 0x00, 0x02, 0, 0, 0, 4, 0xde, 0xad, 0xbe, 0xef]);
}

#[test]
fn add_record_frame_bytes() {
    let f = encoded(ClientMessage::AddRecord(AddRecord {
        recid: 7,
        atype: 1,
        rtype: "ai".to_string(),
        rname: "X:Y".to_string(),
    }));
    assert_eq!(
        f,
        vec![
            0x52, 0x43, 0x00, 0x03, 0, 0, 0, 13, 0, 0, 0, 7, 1, 2, 0, 3, b'a', b'i', b'X', b':', b'Y'
        ]
    );
}

#[test]
fn add_info_frame_bytes() {
    let f = encoded(ClientMessage::AddInfo(AddInfo {
        recid: 0,
        key: "k".to_string(),
        value: "vv".to_string(),
    }));
    assert_eq!(
        f,
        vec![0x52, 0x43, 0x00, 0x06, 0, 0, 0, 11, 0, 0, 0, 0, 1, 0, 0, 2, b'k', b'v', b'v']
    );
}

#[test]
fn upload_done_frame_bytes() {
    let f = encoded(ClientMessage::UploadDone(UploadDone));
    assert_eq!(f, vec![0x52, 0x43, 0x00, 0x05, 0, 0, 0, 4, 0, 0, 0, 0]);
}

#[test]
fn string_lengths_count_utf8_bytes() {
    let f = encoded(ClientMessage::AddRecord(AddRecord {
        recid: 1,
        atype: 0,
        rtype: "é".to_string(),
        rname: String::new(),
    }));
    assert_eq!(f[7], 10);
    assert_eq!(f[13], 2);
    assert_eq!(&f[16..], &[0xc3, 0xa9]);
}

#[test]
fn long_type_length_is_cut_to_a_byte() {
    let rtype = "t".repeat(300);
    let f = encoded(ClientMessage::AddRecord(AddRecord {
        recid: 1,
        atype: 0,
        rtype,
        rname: "n".to_string(),
    }));
    assert_eq!(f.len(), 16 + 301);
    assert_eq!(f[13], (300u32 % 256) as u8);
    assert_eq!(u32::from_be_bytes([f[4], f[5], f[6], f[7]]), 309);
}

#[test]
fn encode_appends_after_existing_bytes() {
    let mut codec = MessageCodec;
    let mut dst = BytesMut::from(&[9u8, 9][..]);
    codec
        .encode(Message::Client(ClientMessage::Pong(Pong { nonce: 1 })), &mut dst)
        .unwrap();
    assert_eq!(dst.to_vec(), vec![9, 9, 0x52, 0x43, 0, 2, 0, 0, 0, 4, 0, 0, 0, 1]);
}

#[test]
fn header_length_counts_the_payload() {
    let f = encoded(ClientMessage::AddInfo(AddInfo {
        recid: 3,
        key: "ENGINEER".to_string(),
        value: "someone".to_string(),
    }));
    let len = u32::from_be_bytes([f[4], f[5], f[6], f[7]]) as usize;
    assert_eq!(f.len(), 8 + len);
}

#[test]
fn decode_waits_for_a_header() {
    let mut codec = ServerCodec;
    let mut src = BytesMut::from(&[0x52u8, 0x43, 0x80, 0x02, 0, 0, 0][..]);
    assert!(matches!(codec.decode(&mut src), Ok(None)));
    assert_eq!(src.len(), 7);
}

#[test]
fn decode_ignores_a_wrong_magic_number() {
    let mut codec = ServerCodec;
    let mut src = BytesMut::from(&[0x00u8, 0x43, 0x80, 0x02, 0, 0, 0, 4, 1, 2, 3, 4][..]);
    assert!(matches!(codec.decode(&mut src), Ok(None)));
    assert_eq!(src.len(), 12);
}

#[test]
fn decode_waits_for_the_whole_payload() {
    let mut codec = ServerCodec;
    let mut src = BytesMut::from(&[0x52u8, 0x43, 0x80, 0x02, 0, 0, 0, 4, 1, 2][..]);
    assert!(matches!(codec.decode(&mut src), Ok(None)));
    assert_eq!(src.len(), 10);
}

#[test]
fn decode_ping() {
    let mut codec = ServerCodec;
    let mut src =
        BytesMut::from(&[0x52u8, 0x43, 0x80, 0x02, 0, 0, 0, 4, 0x11, 0x22, 0x33, 0x44, 0xaa][..]);
    let r = codec.decode(&mut src).unwrap();
    assert_eq!(r, Some(ServerMessage::Ping(Ping { nonce: 0x11223344 })));
    assert_eq!(src.to_vec(), vec![0xaa]);
}

#[test]
fn decode_server_greet_takes_one_payload_byte() {
    let mut codec = ServerCodec;
    let mut src = BytesMut::from(&[0x52u8, 0x43, 0x80, 0x01, 0, 0, 0, 2, 0, 7][..]);
    let r = codec.decode(&mut src).unwrap();
    assert_eq!(r, Some(ServerMessage::ServerGreet(ServerGreet)));
    assert_eq!(src.to_vec(), vec![7]);
}

#[test]
fn server_decoder_refuses_client_frames() {
    let mut codec = ServerCodec;
    let frame = encoded(ClientMessage::Pong(Pong { nonce: 5 }));
    let mut src = BytesMut::from(&frame[..]);
    match codec.decode(&mut src) {
        Err(ProtocolError::InvalidMessageFormat(text)) => {
            assert_eq!(text, "Unexpected message type for server codec")
        }
        _ => panic!("expected a refusal"),
    }
    assert_eq!(src.to_vec(), vec![0, 0, 0, 5]);
}

#[test]
fn message_decoder_wraps_server_messages() {
    let mut codec = MessageCodec;
    let mut src = BytesMut::from(&[0x52u8, 0x43, 0x80, 0x02, 0, 0, 0, 4, 0, 0, 1, 0][..]);
    let r = codec.decode(&mut src).unwrap();
    assert_eq!(r, Some(Message::Server(ServerMessage::Ping(Ping { nonce: 256 }))));
    assert!(src.is_empty());
}

#[test]
fn message_decoder_refuses_unknown_ids() {
    let mut codec = MessageCodec;
    let mut src = BytesMut::from(&[0x52u8, 0x43, 0x99, 0x99, 0, 0, 0, 0, 5][..]);
    match codec.decode(&mut src) {
        Err(ProtocolError::UnknownMessageId(id)) => assert_eq!(id, 0x9999),
        _ => panic!("expected UnknownMessageId"),
    }
    assert_eq!(src.to_vec(), vec![5]);
}

#[test]
fn decoded_frame_ignores_later_bytes() {
    let mut a = BytesMut::from(&[0x52u8, 0x43, 0x80, 0x02, 0, 0, 0, 4, 1, 2, 3, 4][..]);
    let mut b = BytesMut::from(&[0x52u8, 0x43, 0x80, 0x02, 0, 0, 0, 4, 1, 2, 3, 4, 8, 8][..]);
    let ra = ServerCodec.decode(&mut a).unwrap();
    let rb = ServerCodec.decode(&mut b).unwrap();
    assert_eq!(ra, rb);
    assert_eq!(b.to_vec(), vec![8, 8]);
}

fn encode_any(msg: Message) -> Vec<u8> {
    let mut codec = MessageCodec;
    let mut dst = BytesMut::new();
    codec.encode(msg, &mut dst).unwrap();
    dst.to_vec()
}

fn decode_all(bytes: &[u8]) -> (Result<Option<Message>, ProtocolError>, Vec<u8>) {
    let mut codec = MessageCodec;
    let mut src = BytesMut::from(bytes);
    let r = codec.decode(&mut src);
    (r, src.to_vec())
}

#[test]
fn server_frames_bytes() {
    assert_eq!(
        encode_any(Message::Server(ServerMessage::ServerGreet(ServerGreet))),
        vec![0x52, 0x43, 0x80, 0x01, 0, 0, 0, 1, 0]
    );
    assert_eq!(
        encode_any(Message::Server(ServerMessage::Ping(Ping { nonce: 0x01020304 }))),
        vec![0x52, 0x43, 0x80, 0x02, 0, 0, 0, 4, 1, 2, 3, 4]
    );
}

#[test]
fn del_record_frame_bytes() {
    let f = encoded(ClientMessage::DelRecord(DelRecord { recid: 0x0a0b0c0d }));
    assert_eq!(f, vec![0x52, 0x43, 0x00, 0x04, 0, 0, 0, 4, 0x0a, 0x0b, 0x0c, 0x0d]);
}

#[test]
fn server_messages_roundtrip() {
    for m in [ServerMessage::ServerGreet(ServerGreet), ServerMessage::Ping(Ping { nonce: 99 })] {
        let mut f = encode_any(Message::Server(m.clone()));
        f.extend_from_slice(&[7, 7]);
        let (r, rest) = decode_all(&f);
        assert_eq!(r.unwrap(), Some(Message::Server(m.clone())));
        assert_eq!(rest, vec![7, 7]);
        let mut src = BytesMut::from(&f[..]);
        assert_eq!(ServerCodec.decode(&mut src).unwrap(), Some(m));
        assert_eq!(src.to_vec(), vec![7, 7]);
    }
}

#[test]
fn client_messages_roundtrip() {
    let messages = vec![
        ClientMessage::ClientGreet(ClientGreet { serv_key: ServerKey(0xbeef) }),
        ClientMessage::Pong(Pong { nonce: 5 }),
        ClientMessage::AddRecord(AddRecord {
            recid: 3,
            atype: 1,
            rtype: "ai".to_string(),
            rname: "TEST:é".to_string(),
        }),
        ClientMessage::DelRecord(DelRecord { recid: 3 }),
        ClientMessage::UploadDone(UploadDone),
        ClientMessage::AddInfo(AddInfo { recid: 0, key: "IOCNAME".to_string(), value: "ioc".to_string() }),
    ];
    for m in messages {
        let mut f = encoded(m.clone());
        f.push(0x52);
        let (r, rest) = decode_all(&f);
        assert_eq!(r.unwrap(), Some(Message::Client(m)));
        assert_eq!(rest, vec![0x52]);
    }
}

#[test]
fn short_client_payloads_are_refused() {
    let (r, rest) = decode_all(&[0x52, 0x43, 0x00, 0x01, 0, 0, 0, 4, 1, 2, 3, 4, 9]);
    match r {
        Err(ProtocolError::InsufficientData { expected, got }) => {
            assert_eq!((expected, got), (8, 4))
        }
        _ => panic!("expected InsufficientData"),
    }
    assert_eq!(rest, vec![9]);
    // AddRecord whose string lengths run past the payload
    let (r, rest) = decode_all(&[0x52, 0x43, 0x00, 0x03, 0, 0, 0, 9, 0, 0, 0, 1, 0, 2, 0, 3, b'a']);
    match r {
        Err(ProtocolError::InsufficientData { expected, got }) => {
            assert_eq!((expected, got), (13, 9))
        }
        _ => panic!("expected InsufficientData"),
    }
    assert!(rest.is_empty());
}

#[test]
fn invalid_utf8_is_refused() {
    let (r, rest) = decode_all(&[0x52, 0x43, 0x00, 0x06, 0, 0, 0, 9, 0, 0, 0, 1, 1, 0, 0, 0, 0xff]);
    match r {
        Err(ProtocolError::InvalidMessageFormat(t)) => assert_eq!(t, "Invalid UTF-8 in a string field"),
        _ => panic!("expected InvalidMessageFormat"),
    }
    assert!(rest.is_empty());
}

#[test]
fn frame_fits_small_buffers() {
    let dst = BytesMut::new();
    assert!(frame_fits(&dst, &Message::Client(ClientMessage::Pong(Pong { nonce: 1 }))));
}
