//! Framing of protocol messages: every message travels as an eight-byte
//! header (the magic number, the message ID and the payload length, all
//! most significant byte first) followed by its payload.

use vstd::prelude::*;
use vstd::string::*;
use vstd::utf8::{encode_utf8, valid_utf8};

use bytes::BytesMut;

use crate::buffer::{
    be16_at, be16_bytes, be32_at, be32_bytes, buf_advance, buf_bytes, buf_get_u32, buf_get_u8,
    buf_len, buf_put_slice, buf_put_u16, buf_put_u32, buf_put_u8, bytes_mut_contents,
    fits_in_buffer, lemma_be16_roundtrip, lemma_be32_roundtrip,
};
use crate::error::ProtocolError;
use crate::text::text_from_utf8;
use crate::types::{
    AddInfo, AddRecord, ClientGreet, ClientMessage, DelRecord, Message, MessageID, Ping, Pong,
    ServerGreet, ServerKey, ServerMessage, UploadDone, message_id_code, message_id_of_code,
};

verus! {

/// UDP port on which servers announce themselves.
pub const SERVER_ANNOUNCEMENT_UDP_PORT: u16 = 5049;

/// Magic number that opens every frame (ASCII "RC").
pub const MSG_MAGIC_ID: u16 = 0x5243;

/// The eight bytes of a frame header for a message ID and a payload length.
pub open spec fn header_bytes(msg_id: u16, len: u32) -> Seq<u8> {
    be16_bytes(MSG_MAGIC_ID) + be16_bytes(msg_id) + be32_bytes(len)
}

/// The UTF-8 bytes of a string.
pub open spec fn text_bytes(s: String) -> Seq<u8> {
    encode_utf8(s@)
}

/// The payload length that the header of an `AddRecord` or `AddInfo` frame
/// carries: eight fixed bytes and the two strings, cut to 32 bits.
pub open spec fn text_payload_len(a: String, b: String) -> u32 {
    (8 + text_bytes(a).len() + text_bytes(b).len()) as u32
}

/// The frame that the encoder writes for a client message.
pub open spec fn client_frame(m: ClientMessage) -> Seq<u8> {
    match m {
        ClientMessage::ClientGreet(g) => header_bytes(0x0001, 8) + be32_bytes(0) + be32_bytes(
            g.serv_key.0,
        ),
        ClientMessage::Pong(p) => header_bytes(0x0002, 4) + be32_bytes(p.nonce),
        ClientMessage::AddRecord(r) => header_bytes(0x0003, text_payload_len(r.rtype, r.rname))
            + be32_bytes(r.recid) + seq![r.atype, text_bytes(r.rtype).len() as u8] + be16_bytes(
            text_bytes(r.rname).len() as u16,
        ) + text_bytes(r.rtype) + text_bytes(r.rname),
        ClientMessage::DelRecord(d) => header_bytes(0x0004, 4) + be32_bytes(d.recid),
        ClientMessage::UploadDone(_) => header_bytes(0x0005, 4) + be32_bytes(0),
        ClientMessage::AddInfo(i) => header_bytes(0x0006, text_payload_len(i.key, i.value))
            + be32_bytes(i.recid) + seq![text_bytes(i.key).len() as u8, 0u8] + be16_bytes(
            text_bytes(i.value).len() as u16,
        ) + text_bytes(i.key) + text_bytes(i.value),
    }
}

/// The number of bytes of the frame of a client message, computed from its
/// fields alone.
pub open spec fn client_frame_len(m: ClientMessage) -> nat {
    match m {
        ClientMessage::ClientGreet(_) => 16,
        ClientMessage::Pong(_) => 12,
        ClientMessage::AddRecord(r) => 16 + text_bytes(r.rtype).len() + text_bytes(r.rname).len(),
        ClientMessage::DelRecord(_) => 12,
        ClientMessage::UploadDone(_) => 12,
        ClientMessage::AddInfo(i) => 16 + text_bytes(i.key).len() + text_bytes(i.value).len(),
    }
}

/// The frame that the encoder writes for a server message: a `ServerGreet`
/// carries one zero byte, a `Ping` its nonce.
pub open spec fn server_frame(m: ServerMessage) -> Seq<u8> {
    match m {
        ServerMessage::ServerGreet(_) => header_bytes(0x8001, 1) + seq![0u8],
        ServerMessage::Ping(p) => header_bytes(0x8002, 4) + be32_bytes(p.nonce),
    }
}

/// The number of bytes of the frame of a server message.
pub open spec fn server_frame_len(m: ServerMessage) -> nat {
    match m {
        ServerMessage::ServerGreet(_) => 9,
        ServerMessage::Ping(_) => 12,
    }
}

/// The frame that the encoder writes for a message of either direction.
pub open spec fn message_frame(m: Message) -> Seq<u8> {
    match m {
        Message::Server(s) => server_frame(s),
        Message::Client(c) => client_frame(c),
    }
}

/// The number of bytes of the frame of a message of either direction.
pub open spec fn message_frame_len(m: Message) -> nat {
    match m {
        Message::Server(s) => server_frame_len(s),
        Message::Client(c) => client_frame_len(c),
    }
}

/// Whether the strings of a client message fit the length fields of its
/// frame: a one-byte length for the record type and the info key, a
/// two-byte length for the record name and the info value. Longer strings
/// are written whole, but their length fields are cut.
pub open spec fn client_fields_fit(m: ClientMessage) -> bool {
    match m {
        ClientMessage::AddRecord(r) => text_bytes(r.rtype).len() <= 0xff && text_bytes(r.rname).len()
            <= 0xffff,
        ClientMessage::AddInfo(i) => text_bytes(i.key).len() <= 0xff && text_bytes(i.value).len()
            <= 0xffff,
        _ => true,
    }
}

/// Whether two client messages carry the same fields, texts compared as
/// texts.
pub open spec fn same_client_message(a: ClientMessage, b: ClientMessage) -> bool {
    match (a, b) {
        (ClientMessage::ClientGreet(x), ClientMessage::ClientGreet(y)) => x.serv_key == y.serv_key,
        (ClientMessage::Pong(x), ClientMessage::Pong(y)) => x.nonce == y.nonce,
        (ClientMessage::AddRecord(x), ClientMessage::AddRecord(y)) => {
            &&& x.recid == y.recid
            &&& x.atype == y.atype
            &&& x.rtype@ == y.rtype@
            &&& x.rname@ == y.rname@
        },
        (ClientMessage::DelRecord(x), ClientMessage::DelRecord(y)) => x.recid == y.recid,
        (ClientMessage::UploadDone(_), ClientMessage::UploadDone(_)) => true,
        (ClientMessage::AddInfo(x), ClientMessage::AddInfo(y)) => {
            &&& x.recid == y.recid
            &&& x.key@ == y.key@
            &&& x.value@ == y.value@
        },
        _ => false,
    }
}

/// Whether a buffer starts with a whole frame: a header that opens with the
/// magic number, and as many bytes after it as the header's length field
/// says.
pub open spec fn frame_complete(s: Seq<u8>) -> bool {
    &&& s.len() >= 8
    &&& be16_at(s, 0) == MSG_MAGIC_ID
    &&& s.len() >= 8 + be32_at(s, 4)
}

/// The message ID that the header at the start of a buffer carries.
pub open spec fn frame_msg_id(s: Seq<u8>) -> u16 {
    be16_at(s, 2) as u16
}

/// The payload length that the header at the start of a buffer carries.
pub open spec fn frame_payload_len(s: Seq<u8>) -> u32 {
    be32_at(s, 4) as u32
}

/// The payload of the frame at the start of a buffer: the bytes after the
/// header, as many as its length field says.
pub open spec fn frame_payload(s: Seq<u8>) -> Seq<u8> {
    s.subrange(8, 8 + be32_at(s, 4))
}

/// The text of the error with which the server decoder refuses a frame that
/// holds no server message.
pub open spec fn unexpected_server_message_text() -> Seq<char> {
    "Unexpected message type for server codec"@
}

/// The text of the error with which the decoder refuses a string field that
/// is not valid UTF-8.
pub open spec fn invalid_text_field_text() -> Seq<char> {
    "Invalid UTF-8 in a string field"@
}

/// Whether decoding a buffer stays within the bytes it holds: a whole
/// `ServerGreet` frame must hold at least one payload byte, a whole `Ping`
/// frame at least four, or the decoder reads past the end of the buffer and
/// panics.
pub open spec fn server_decode_in_bounds(s: Seq<u8>) -> bool {
    frame_complete(s) ==> {
        &&& message_id_of_code(frame_msg_id(s)) == Some(MessageID::ServerGreet) ==> s.len() >= 9
        &&& message_id_of_code(frame_msg_id(s)) == Some(MessageID::Ping) ==> s.len() >= 12
    }
}

/// What the server decoder gives for the buffer `s`, and what it leaves in
/// the buffer (`rest`): nothing is taken while no whole frame is there; a
/// `ServerGreet` takes the header and one byte, a `Ping` the header and its
/// four-byte nonce; any other frame takes the header and is refused.
pub open spec fn server_decoded(
    s: Seq<u8>,
    r: Result<Option<ServerMessage>, ProtocolError>,
    rest: Seq<u8>,
) -> bool {
    if !frame_complete(s) {
        r == Ok::<Option<ServerMessage>, ProtocolError>(None) && rest == s
    } else if message_id_of_code(frame_msg_id(s)) == Some(MessageID::ServerGreet) {
        r == Ok::<Option<ServerMessage>, ProtocolError>(Some(ServerMessage::ServerGreet(ServerGreet)))
            && rest == s.skip(9)
    } else if message_id_of_code(frame_msg_id(s)) == Some(MessageID::Ping) {
        r == Ok::<Option<ServerMessage>, ProtocolError>(
            Some(ServerMessage::Ping(Ping { nonce: be32_at(s, 8) as u32 })),
        ) && rest == s.skip(12)
    } else {
        &&& r matches Err(ProtocolError::InvalidMessageFormat(t))
        &&& r->Err_0->InvalidMessageFormat_0@ == unexpected_server_message_text()
        &&& rest == s.skip(8)
    }
}

/// The refusal of a payload that is shorter than its message needs.
pub open spec fn short_payload(
    r: Result<Option<Message>, ProtocolError>,
    expected: int,
    p: Seq<u8>,
) -> bool {
    r == Err::<Option<Message>, ProtocolError>(
        ProtocolError::InsufficientData { expected: expected as usize, got: p.len() as usize },
    )
}

/// The refusal of a string field that is not valid UTF-8.
pub open spec fn bad_text(r: Result<Option<Message>, ProtocolError>) -> bool {
    &&& r matches Err(ProtocolError::InvalidMessageFormat(t))
    &&& r->Err_0->InvalidMessageFormat_0@ == invalid_text_field_text()
}

/// What the decoder gives for the payload `p` of an `AddRecord` frame: the
/// record ID (bytes 0-3), the type of record (byte 4), the length of the
/// record type (byte 5) and of the record name (bytes 6-7), then the two
/// strings.
pub open spec fn add_record_decoded(p: Seq<u8>, r: Result<Option<Message>, ProtocolError>) -> bool {
    if p.len() < 8 {
        short_payload(r, 8, p)
    } else if p.len() < 8 + p[5] + be16_at(p, 6) {
        short_payload(r, 8 + p[5] + be16_at(p, 6), p)
    } else {
        let tb = p.subrange(8, 8 + p[5]);
        let nb = p.subrange(8 + p[5], 8 + p[5] + be16_at(p, 6));
        if valid_utf8(tb) && valid_utf8(nb) {
            r matches Ok(Some(Message::Client(ClientMessage::AddRecord(a)))) && a.recid == be32_at(p, 0)
                && a.atype == p[4] && text_bytes(a.rtype) == tb && text_bytes(a.rname) == nb
        } else {
            bad_text(r)
        }
    }
}

/// What the decoder gives for the payload `p` of an `AddInfo` frame: the
/// record ID (bytes 0-3), the length of the key (byte 4), a padding byte,
/// the length of the value (bytes 6-7), then the two strings.
pub open spec fn add_info_decoded(p: Seq<u8>, r: Result<Option<Message>, ProtocolError>) -> bool {
    if p.len() < 8 {
        short_payload(r, 8, p)
    } else if p.len() < 8 + p[4] + be16_at(p, 6) {
        short_payload(r, 8 + p[4] + be16_at(p, 6), p)
    } else {
        let kb = p.subrange(8, 8 + p[4]);
        let vb = p.subrange(8 + p[4], 8 + p[4] + be16_at(p, 6));
        if valid_utf8(kb) && valid_utf8(vb) {
            r matches Ok(Some(Message::Client(ClientMessage::AddInfo(a)))) && a.recid == be32_at(p, 0)
                && text_bytes(a.key) == kb && text_bytes(a.value) == vb
        } else {
            bad_text(r)
        }
    }
}

/// What the decoder gives for the payload `p` of a client message of kind
/// `id`, laid out as the encoder lays it out: a `ClientGreet` has four bytes
/// of padding and the key, a `Pong` its nonce, a `DelRecord` its record ID,
/// an `UploadDone` nothing that is read. A payload shorter than its message
/// needs is refused with `InsufficientData`.
pub open spec fn client_payload_decoded(
    id: MessageID,
    p: Seq<u8>,
    r: Result<Option<Message>, ProtocolError>,
) -> bool {
    match id {
        MessageID::ClientGreet => if p.len() < 8 {
            short_payload(r, 8, p)
        } else {
            r == Ok::<Option<Message>, ProtocolError>(
                Some(
                    Message::Client(
                        ClientMessage::ClientGreet(
                            ClientGreet { serv_key: ServerKey(be32_at(p, 4) as u32) },
                        ),
                    ),
                ),
            )
        },
        MessageID::Pong => if p.len() < 4 {
            short_payload(r, 4, p)
        } else {
            r == Ok::<Option<Message>, ProtocolError>(
                Some(Message::Client(ClientMessage::Pong(Pong { nonce: be32_at(p, 0) as u32 }))),
            )
        },
        MessageID::DelRecord => if p.len() < 4 {
            short_payload(r, 4, p)
        } else {
            r == Ok::<Option<Message>, ProtocolError>(
                Some(
                    Message::Client(ClientMessage::DelRecord(DelRecord { recid: be32_at(p, 0) as u32 })),
                ),
            )
        },
        MessageID::UploadDone => r == Ok::<Option<Message>, ProtocolError>(
            Some(Message::Client(ClientMessage::UploadDone(UploadDone))),
        ),
        MessageID::AddRecord => add_record_decoded(p, r),
        MessageID::AddInfo => add_info_decoded(p, r),
        _ => false,
    }
}

/// Whether a message kind is one that clients send.
pub open spec fn is_client_id(id: MessageID) -> bool {
    !(id is ServerGreet) && !(id is Ping)
}

/// What the general decoder gives for the buffer `s`, and what it leaves in
/// the buffer (`rest`): as the server decoder for server messages, wrapped in
/// `Message::Server`; a client message is read from the frame's payload and
/// the whole frame is taken off, whether it is read or refused; a frame with
/// an unknown message ID takes the header and is refused with
/// `UnknownMessageId`.
pub open spec fn message_decoded(
    s: Seq<u8>,
    r: Result<Option<Message>, ProtocolError>,
    rest: Seq<u8>,
) -> bool {
    if !frame_complete(s) {
        r == Ok::<Option<Message>, ProtocolError>(None) && rest == s
    } else {
        match message_id_of_code(frame_msg_id(s)) {
            Some(MessageID::ServerGreet) => r == Ok::<Option<Message>, ProtocolError>(
                Some(Message::Server(ServerMessage::ServerGreet(ServerGreet))),
            ) && rest == s.skip(9),
            Some(MessageID::Ping) => r == Ok::<Option<Message>, ProtocolError>(
                Some(Message::Server(ServerMessage::Ping(Ping { nonce: be32_at(s, 8) as u32 }))),
            ) && rest == s.skip(12),
            Some(id) => client_payload_decoded(id, frame_payload(s), r) && rest == s.skip(
                8 + be32_at(s, 4),
            ),
            None => r == Err::<Option<Message>, ProtocolError>(
                ProtocolError::UnknownMessageId(frame_msg_id(s)),
            ) && rest == s.skip(8),
        }
    }
}

/// Reads the header at the start of the buffer, if a whole frame is there:
/// its message ID and payload length.
fn peek_frame(src: &BytesMut) -> (r: Option<(u16, usize)>)
    ensures
        r is Some <==> frame_complete(bytes_mut_contents(*src)),
        r matches Some((id, len)) ==> id == frame_msg_id(bytes_mut_contents(*src)) && len == be32_at(
            bytes_mut_contents(*src),
            4,
        ),
{
    let n = buf_len(src);
    if n < 8 {
        return None;
    }
    let b = buf_bytes(src);
    let id: u16 = (b[0] as u16) * 256 + b[1] as u16;
    let msg_id: u16 = (b[2] as u16) * 256 + b[3] as u16;
    let len: u64 = (b[4] as u64) * 0x100_0000 + (b[5] as u64) * 0x1_0000 + (b[6] as u64) * 256
        + b[7] as u64;
    if id != MSG_MAGIC_ID {
        return None;
    }
    if (n as u64) < 8 + len {
        return None;
    }
    Some((msg_id, len as usize))
}

fn read_be16(b: &[u8], i: usize) -> (v: u16)
    requires
        i + 2 <= b@.len(),
    ensures
        v == be16_at(b@, i as int),
{
    (b[i] as u16) * 256 + b[i + 1] as u16
}

fn read_be32(b: &[u8], i: usize) -> (v: u32)
    requires
        i + 4 <= b@.len(),
    ensures
        v == be32_at(b@, i as int),
{
    (b[i] as u32) * 0x100_0000 + (b[i + 1] as u32) * 0x1_0000 + (b[i + 2] as u32) * 256 + b[i
        + 3] as u32
}

fn short_payload_error(expected: usize, len: usize) -> (r: Result<Option<Message>, ProtocolError>)
    ensures
        r == Err::<Option<Message>, ProtocolError>(
            ProtocolError::InsufficientData { expected, got: len },
        ),
{
    Err(ProtocolError::InsufficientData { expected, got: len })
}

fn bad_text_error() -> (r: Result<Option<Message>, ProtocolError>)
    ensures
        bad_text(r),
{
    Err(ProtocolError::InvalidMessageFormat(String::from_str("Invalid UTF-8 in a string field")))
}

/// Reads a client message of kind `id` from the payload `b[8..8 + len]`.
fn read_client_payload(b: &[u8], id: MessageID, len: usize) -> (r: Result<Option<Message>, ProtocolError>)
    requires
        8 + len <= b@.len(),
        is_client_id(id),
    ensures
        client_payload_decoded(id, b@.subrange(8, 8 + len as int), r),
{
    let ghost p = b@.subrange(8, 8 + len as int);
    match id {
        MessageID::ClientGreet => {
            if len < 8 {
                return short_payload_error(8, len);
            }
            let key = read_be32(b, 12);
            Ok(Some(Message::Client(ClientMessage::ClientGreet(ClientGreet { serv_key: ServerKey(key) }))))
        },
        MessageID::Pong => {
            if len < 4 {
                return short_payload_error(4, len);
            }
            let nonce = read_be32(b, 8);
            Ok(Some(Message::Client(ClientMessage::Pong(Pong { nonce }))))
        },
        MessageID::DelRecord => {
            if len < 4 {
                return short_payload_error(4, len);
            }
            let recid = read_be32(b, 8);
            Ok(Some(Message::Client(ClientMessage::DelRecord(DelRecord { recid }))))
        },
        MessageID::UploadDone => Ok(Some(Message::Client(ClientMessage::UploadDone(UploadDone)))),
        MessageID::AddRecord => {
            if len < 8 {
                return short_payload_error(8, len);
            }
            let recid = read_be32(b, 8);
            let atype = b[12];
            let tl = b[13] as usize;
            let nl = read_be16(b, 14) as usize;
            assert(p[5] == tl && be16_at(p, 6) == nl);
            if len < 8 + tl + nl {
                return short_payload_error(8 + tl + nl, len);
            }
            let rtype = text_from_utf8(b, 16, 16 + tl);
            let rname = text_from_utf8(b, 16 + tl, 16 + tl + nl);
            assert(b@.subrange(16, 16 + tl as int) =~= p.subrange(8, 8 + p[5]));
            assert(b@.subrange(16 + tl as int, 16 + tl + nl as int) =~= p.subrange(8 + p[5], 8 + p[5] + be16_at(p, 6)));
            match (rtype, rname) {
                (Some(rtype), Some(rname)) => Ok(
                    Some(Message::Client(ClientMessage::AddRecord(AddRecord { recid, atype, rtype, rname }))),
                ),
                _ => bad_text_error(),
            }
        },
        MessageID::AddInfo => {
            if len < 8 {
                return short_payload_error(8, len);
            }
            let recid = read_be32(b, 8);
            let kl = b[12] as usize;
            let vl = read_be16(b, 14) as usize;
            assert(p[4] == kl && be16_at(p, 6) == vl);
            if len < 8 + kl + vl {
                return short_payload_error(8 + kl + vl, len);
            }
            let key = text_from_utf8(b, 16, 16 + kl);
            let value = text_from_utf8(b, 16 + kl, 16 + kl + vl);
            assert(b@.subrange(16, 16 + kl as int) =~= p.subrange(8, 8 + p[4]));
            assert(b@.subrange(16 + kl as int, 16 + kl + vl as int) =~= p.subrange(8 + p[4], 8 + p[4] + be16_at(p, 6)));
            match (key, value) {
                (Some(key), Some(value)) => Ok(
                    Some(Message::Client(ClientMessage::AddInfo(AddInfo { recid, key, value }))),
                ),
                _ => bad_text_error(),
            }
        },
        _ => {
            assert(false);
            Ok(None)
        },
    }
}

/// Why a decoder cannot take the whole frame at the start of a buffer.
#[derive(Copy, Clone, Debug, PartialEq, Eq, Structural)]
pub enum DecodeLimit {
    /// The frame's payload is shorter than its message is read with.
    ShortPayload,
}

/// Why a decoder cannot take the frame at the start of `s`, if it cannot.
pub open spec fn server_decode_limit(s: Seq<u8>) -> Option<DecodeLimit> {
    if server_decode_in_bounds(s) {
        None
    } else {
        Some(DecodeLimit::ShortPayload)
    }
}

/// Tells whether the frame at the start of the buffer, if whole, holds as
/// many payload bytes as a server message is read with.
fn payload_in_bounds(src: &BytesMut, msg_id: u16) -> (r: bool)
    requires
        frame_complete(bytes_mut_contents(*src)),
        msg_id == frame_msg_id(bytes_mut_contents(*src)),
    ensures
        r == server_decode_in_bounds(bytes_mut_contents(*src)),
{
    let n = buf_len(src);
    match MessageID::try_from(msg_id) {
        Ok(MessageID::ServerGreet) => n >= 9,
        Ok(MessageID::Ping) => n >= 12,
        _ => true,
    }
}

fn decode_limit_of(src: &BytesMut) -> (r: Option<DecodeLimit>)
    ensures
        r == server_decode_limit(bytes_mut_contents(*src)),
{
    match peek_frame(src) {
        None => None,
        Some((msg_id, _)) => if payload_in_bounds(src, msg_id) {
            None
        } else {
            Some(DecodeLimit::ShortPayload)
        },
    }
}

/// Tells whether a frame for `msg` can be appended to `dst` without the
/// buffer growing past the largest size it may reach.
pub fn frame_fits(dst: &BytesMut, msg: &Message) -> (r: bool)
    ensures
        r == fits_in_buffer(bytes_mut_contents(*dst).len() + message_frame_len(*msg)),
{
    let frame: u128 = match msg {
        Message::Server(ServerMessage::ServerGreet(_)) => 9,
        Message::Server(ServerMessage::Ping(_)) => 12,
        Message::Client(ClientMessage::ClientGreet(_)) => 16,
        Message::Client(ClientMessage::Pong(_)) => 12,
        Message::Client(ClientMessage::DelRecord(_)) => 12,
        Message::Client(ClientMessage::UploadDone(_)) => 12,
        Message::Client(ClientMessage::AddRecord(r)) => 16u128 + r.rtype.as_str().as_bytes().len() as u128
            + r.rname.as_str().as_bytes().len() as u128,
        Message::Client(ClientMessage::AddInfo(i)) => 16u128 + i.key.as_str().as_bytes().len() as u128
            + i.value.as_str().as_bytes().len() as u128,
    };
    (buf_len(dst) as u128) + frame <= isize::MAX as u128
}

/// Encoder and decoder for messages of both directions.
pub struct MessageCodec;

/// Encoder for client messages.
pub struct ClientCodec;

/// Decoder for server messages.
pub struct ServerCodec;

fn put_header(dst: &mut BytesMut, msg_id: u16, len: u32)
    requires
        fits_in_buffer(bytes_mut_contents(*old(dst)).len() + 8),
    ensures
        bytes_mut_contents(*final(dst)) == bytes_mut_contents(*old(dst)) + header_bytes(msg_id, len),
{
    buf_put_u16(dst, MSG_MAGIC_ID);
    buf_put_u16(dst, msg_id);
    buf_put_u32(dst, len);
    assert(bytes_mut_contents(*dst) =~= bytes_mut_contents(*old(dst)) + header_bytes(msg_id, len));
}

impl MessageCodec {
    /// Appends the frame of a client message to `dst`.
    pub fn encode_client(&mut self, msg: ClientMessage, dst: &mut BytesMut) -> (r: Result<(), std::io::Error>)
        requires
            fits_in_buffer(bytes_mut_contents(*old(dst)).len() + client_frame_len(msg)),
        ensures
            r is Ok,
            bytes_mut_contents(*final(dst)) == bytes_mut_contents(*old(dst)) + client_frame(msg),
    {
        let ghost start = bytes_mut_contents(*dst);
        match msg {
            ClientMessage::ClientGreet(m) => {
                put_header(dst, u16::from(MessageID::ClientGreet), 8);
                buf_put_u32(dst, 0);
                buf_put_u32(dst, u32::from(m.serv_key));
                assert(bytes_mut_contents(*dst) =~= start + client_frame(ClientMessage::ClientGreet(m)));
                Ok(())
            },
            ClientMessage::Pong(m) => {
                put_header(dst, u16::from(MessageID::Pong), 4);
                buf_put_u32(dst, m.nonce);
                assert(bytes_mut_contents(*dst) =~= start + client_frame(ClientMessage::Pong(m)));
                Ok(())
            },
            ClientMessage::AddRecord(m) => {
                let rtype = m.rtype.as_str().as_bytes();
                let rname = m.rname.as_str().as_bytes();
                let total: u64 = 8u64 + rtype.len() as u64 + rname.len() as u64;
                put_header(dst, u16::from(MessageID::AddRecord), total as u32);
                buf_put_u32(dst, m.recid);
                buf_put_u8(dst, m.atype);
                buf_put_u8(dst, rtype.len() as u8);
                buf_put_u16(dst, rname.len() as u16);
                buf_put_slice(dst, rtype);
                buf_put_slice(dst, rname);
                assert(bytes_mut_contents(*dst) =~= start + client_frame(ClientMessage::AddRecord(m)));
                Ok(())
            },
            ClientMessage::DelRecord(m) => {
                put_header(dst, u16::from(MessageID::DelRecord), 4);
                buf_put_u32(dst, m.recid);
                assert(bytes_mut_contents(*dst) =~= start + client_frame(ClientMessage::DelRecord(m)));
                Ok(())
            },
            ClientMessage::AddInfo(m) => {
                let key = m.key.as_str().as_bytes();
                let value = m.value.as_str().as_bytes();
                let total: u64 = 8u64 + key.len() as u64 + value.len() as u64;
                put_header(dst, u16::from(MessageID::AddInfo), total as u32);
                buf_put_u32(dst, m.recid);
                buf_put_u8(dst, key.len() as u8);
                buf_put_u8(dst, 0);
                buf_put_u16(dst, value.len() as u16);
                buf_put_slice(dst, key);
                buf_put_slice(dst, value);
                assert(bytes_mut_contents(*dst) =~= start + client_frame(ClientMessage::AddInfo(m)));
                Ok(())
            },
            ClientMessage::UploadDone(m) => {
                put_header(dst, u16::from(MessageID::UploadDone), 4);
                buf_put_u32(dst, 0);
                assert(bytes_mut_contents(*dst) =~= start + client_frame(ClientMessage::UploadDone(m)));
                Ok(())
            },
        }
    }

    /// Appends the frame of a server message to `dst`.
    pub fn encode_server(&mut self, msg: ServerMessage, dst: &mut BytesMut) -> (r: Result<(), std::io::Error>)
        requires
            fits_in_buffer(bytes_mut_contents(*old(dst)).len() + server_frame_len(msg)),
        ensures
            r is Ok,
            bytes_mut_contents(*final(dst)) == bytes_mut_contents(*old(dst)) + server_frame(msg),
    {
        let ghost start = bytes_mut_contents(*dst);
        match msg {
            ServerMessage::ServerGreet(m) => {
                put_header(dst, u16::from(MessageID::ServerGreet), 1);
                buf_put_u8(dst, 0);
                assert(bytes_mut_contents(*dst) =~= start + server_frame(ServerMessage::ServerGreet(m)));
                Ok(())
            },
            ServerMessage::Ping(m) => {
                put_header(dst, u16::from(MessageID::Ping), 4);
                buf_put_u32(dst, m.nonce);
                assert(bytes_mut_contents(*dst) =~= start + server_frame(ServerMessage::Ping(m)));
                Ok(())
            },
        }
    }

    /// Appends the frame of a message to `dst`.
    pub fn encode(&mut self, msg: Message, dst: &mut BytesMut) -> (r: Result<(), std::io::Error>)
        requires
            fits_in_buffer(bytes_mut_contents(*old(dst)).len() + message_frame_len(msg)),
        ensures
            r is Ok,
            bytes_mut_contents(*final(dst)) == bytes_mut_contents(*old(dst)) + message_frame(msg),
    {
        match msg {
            Message::Client(client_msg) => self.encode_client(client_msg, dst),
            Message::Server(server_msg) => self.encode_server(server_msg, dst),
        }
    }

    /// Takes the next message off the front of `src`, if a whole frame is
    /// there.
    pub fn decode(&mut self, src: &mut BytesMut) -> (r: Result<Option<Message>, ProtocolError>)
        requires
            server_decode_in_bounds(bytes_mut_contents(*old(src))),
        ensures
            message_decoded(bytes_mut_contents(*old(src)), r, bytes_mut_contents(*final(src))),
    {
        let (msg_id, len) = match peek_frame(src) {
            None => return Ok(None),
            Some(h) => h,
        };
        match MessageID::try_from(msg_id) {
            Ok(MessageID::ServerGreet) => {
                buf_advance(src, 8);
                let _placeholder = buf_get_u8(src);
                proof {
                    vstd::seq_lib::lemma_seq_skip_of_skip(bytes_mut_contents(*old(src)), 8, 1);
                }
                Ok(Some(Message::Server(ServerMessage::ServerGreet(ServerGreet))))
            },
            Ok(MessageID::Ping) => {
                buf_advance(src, 8);
                let nonce = buf_get_u32(src);
                proof {
                    vstd::seq_lib::lemma_seq_skip_of_skip(bytes_mut_contents(*old(src)), 8, 4);
                }
                Ok(Some(Message::Server(ServerMessage::Ping(Ping { nonce }))))
            },
            Ok(id) => {
                let n = buf_len(src);
                assert(8 + len <= n);
                let r = read_client_payload(buf_bytes(src), id, len);
                buf_advance(src, 8 + len);
                r
            },
            Err(e) => {
                buf_advance(src, 8);
                Err(e)
            },
        }
    }

    /// Tells, before decoding, whether `decode` can take the frame at the
    /// start of `src`, and if not, why.
    pub fn decode_limit(&self, src: &BytesMut) -> (r: Option<DecodeLimit>)
        ensures
            r == server_decode_limit(bytes_mut_contents(*src)),
    {
        decode_limit_of(src)
    }
}

impl ClientCodec {
    /// Appends the frame of a client message to `dst`.
    pub fn encode(&mut self, msg: ClientMessage, dst: &mut BytesMut) -> (r: Result<(), std::io::Error>)
        requires
            fits_in_buffer(bytes_mut_contents(*old(dst)).len() + client_frame_len(msg)),
        ensures
            r is Ok,
            bytes_mut_contents(*final(dst)) == bytes_mut_contents(*old(dst)) + client_frame(msg),
    {
        let mut codec = MessageCodec;
        codec.encode_client(msg, dst)
    }
}

impl ServerCodec {
    /// Tells, before decoding, whether `decode` can take the frame at the
    /// start of `src`, and if not, why.
    pub fn decode_limit(&self, src: &BytesMut) -> (r: Option<DecodeLimit>)
        ensures
            r == server_decode_limit(bytes_mut_contents(*src)),
    {
        decode_limit_of(src)
    }

    /// Takes the next server message off the front of `src`, if a whole frame
    /// is there.
    pub fn decode(&mut self, src: &mut BytesMut) -> (r: Result<Option<ServerMessage>, ProtocolError>)
        requires
            server_decode_in_bounds(bytes_mut_contents(*old(src))),
        ensures
            server_decoded(bytes_mut_contents(*old(src)), r, bytes_mut_contents(*final(src))),
    {
        let (msg_id, _) = match peek_frame(src) {
            None => return Ok(None),
            Some(h) => h,
        };
        buf_advance(src, 8);
        match MessageID::try_from(msg_id) {
            Ok(MessageID::ServerGreet) => {
                let _placeholder = buf_get_u8(src);
                proof {
                    vstd::seq_lib::lemma_seq_skip_of_skip(bytes_mut_contents(*old(src)), 8, 1);
                }
                Ok(Some(ServerMessage::ServerGreet(ServerGreet)))
            },
            Ok(MessageID::Ping) => {
                let nonce = buf_get_u32(src);
                proof {
                    vstd::seq_lib::lemma_seq_skip_of_skip(bytes_mut_contents(*old(src)), 8, 4);
                }
                Ok(Some(ServerMessage::Ping(Ping { nonce })))
            },
            _ => Err(
                ProtocolError::InvalidMessageFormat(
                    String::from_str("Unexpected message type for server codec"),
                ),
            ),
        }
    }
}

/// The kind of a client message.
pub open spec fn client_message_id(m: ClientMessage) -> MessageID {
    match m {
        ClientMessage::ClientGreet(_) => MessageID::ClientGreet,
        ClientMessage::Pong(_) => MessageID::Pong,
        ClientMessage::AddRecord(_) => MessageID::AddRecord,
        ClientMessage::DelRecord(_) => MessageID::DelRecord,
        ClientMessage::UploadDone(_) => MessageID::UploadDone,
        ClientMessage::AddInfo(_) => MessageID::AddInfo,
    }
}

proof fn lemma_header_fields(msg_id: u16, len: u32, rest: Seq<u8>)
    ensures
        (header_bytes(msg_id, len) + rest).len() == 8 + rest.len(),
        be16_at(header_bytes(msg_id, len) + rest, 0) == MSG_MAGIC_ID,
        frame_msg_id(header_bytes(msg_id, len) + rest) == msg_id,
        frame_payload_len(header_bytes(msg_id, len) + rest) == len,
        be32_at(header_bytes(msg_id, len) + rest, 4) == len,
{
    lemma_be16_roundtrip(MSG_MAGIC_ID);
    lemma_be16_roundtrip(msg_id);
    lemma_be32_roundtrip(len);
    let f = header_bytes(msg_id, len) + rest;
    assert(f[0] == be16_bytes(MSG_MAGIC_ID)[0] && f[1] == be16_bytes(MSG_MAGIC_ID)[1]);
    assert(f[2] == be16_bytes(msg_id)[0] && f[3] == be16_bytes(msg_id)[1]);
    assert(f[4] == be32_bytes(len)[0] && f[5] == be32_bytes(len)[1]);
    assert(f[6] == be32_bytes(len)[2] && f[7] == be32_bytes(len)[3]);
}

proof fn lemma_be32_in(a: Seq<u8>, v: u32, b: Seq<u8>)
    ensures
        be32_at(a + be32_bytes(v) + b, a.len() as int) == v,
{
    lemma_be32_roundtrip(v);
    let f = a + be32_bytes(v) + b;
    let k = a.len() as int;
    let x = be32_bytes(v);
    assert(f[k] == x[0] && f[k + 1] == x[1] && f[k + 2] == x[2] && f[k + 3] == x[3]);
}

proof fn lemma_be16_in(a: Seq<u8>, v: u16, b: Seq<u8>)
    ensures
        be16_at(a + be16_bytes(v) + b, a.len() as int) == v,
{
    lemma_be16_roundtrip(v);
    let f = a + be16_bytes(v) + b;
    let k = a.len() as int;
    let x = be16_bytes(v);
    assert(f[k] == x[0] && f[k + 1] == x[1]);
}

/// Every frame that the encoder writes opens with a header that carries the
/// magic number and the ID of the message's kind, and is as long as the
/// message's fields say. Unless the two strings of an `AddRecord` or
/// `AddInfo` are too long for the 32-bit length field, the header's length
/// field counts exactly the bytes that follow the header, so the frame is a
/// whole frame to a decoder; strings that fit their own length fields are
/// always short enough.
pub proof fn law_client_frame_header(m: ClientMessage)
    ensures
        client_frame(m).len() == client_frame_len(m),
        client_fields_fit(m) ==> client_frame_len(m) < 8 + 0x1_0000_0000,
        be16_at(client_frame(m), 0) == MSG_MAGIC_ID,
        frame_msg_id(client_frame(m)) == message_id_code(client_message_id(m)),
        client_frame_len(m) < 8 + 0x1_0000_0000 ==> {
            &&& frame_payload_len(client_frame(m)) == client_frame_len(m) - 8
            &&& be32_at(client_frame(m), 4) == client_frame_len(m) - 8
            &&& frame_complete(client_frame(m))
        },
{
    match m {
        ClientMessage::ClientGreet(g) => {
            lemma_header_fields(0x0001, 8, be32_bytes(0) + be32_bytes(g.serv_key.0));
            assert(client_frame(m) =~= header_bytes(0x0001, 8) + (be32_bytes(0) + be32_bytes(g.serv_key.0)));
        },
        ClientMessage::Pong(p) => {
            lemma_header_fields(0x0002, 4, be32_bytes(p.nonce));
        },
        ClientMessage::AddRecord(r) => {
            let body = be32_bytes(r.recid) + seq![r.atype, text_bytes(r.rtype).len() as u8]
                + be16_bytes(text_bytes(r.rname).len() as u16) + text_bytes(r.rtype) + text_bytes(r.rname);
            lemma_header_fields(0x0003, text_payload_len(r.rtype, r.rname), body);
            assert(client_frame(m) =~= header_bytes(0x0003, text_payload_len(r.rtype, r.rname)) + body);
        },
        ClientMessage::DelRecord(d) => {
            lemma_header_fields(0x0004, 4, be32_bytes(d.recid));
        },
        ClientMessage::UploadDone(_) => {
            lemma_header_fields(0x0005, 4, be32_bytes(0));
        },
        ClientMessage::AddInfo(i) => {
            let body = be32_bytes(i.recid) + seq![text_bytes(i.key).len() as u8, 0u8]
                + be16_bytes(text_bytes(i.value).len() as u16) + text_bytes(i.key) + text_bytes(i.value);
            lemma_header_fields(0x0006, text_payload_len(i.key, i.value), body);
            assert(client_frame(m) =~= header_bytes(0x0006, text_payload_len(i.key, i.value)) + body);
        },
    }
}

/// What stands in the header of a whole frame, and in the bytes it spans,
/// does not change when more bytes are appended.
proof fn lemma_whole_frame_prefix(s: Seq<u8>, t: Seq<u8>)
    requires
        frame_complete(s),
    ensures
        frame_complete(s + t),
        frame_msg_id(s + t) == frame_msg_id(s),
        be32_at(s + t, 4) == be32_at(s, 4),
        frame_payload(s + t) == frame_payload(s),
        s.len() >= 12 ==> be32_at(s + t, 8) == be32_at(s, 8),
        forall|k: int| 0 <= k <= s.len() ==> #[trigger] (s + t).skip(k) == s.skip(k) + t,
{
    let st = s + t;
    assert(st[0] == s[0] && st[1] == s[1] && st[2] == s[2] && st[3] == s[3]);
    assert(st[4] == s[4] && st[5] == s[5] && st[6] == s[6] && st[7] == s[7]);
    if s.len() >= 12 {
        assert(st[8] == s[8] && st[9] == s[9] && st[10] == s[10] && st[11] == s[11]);
    }
    assert(frame_payload(st) =~= frame_payload(s));
    assert forall|k: int| 0 <= k <= s.len() implies #[trigger] (s + t).skip(k) == s.skip(k) + t by {
        assert((s + t).skip(k) =~= s.skip(k) + t);
    }
}

/// A decoder's answer does not depend on bytes that arrive after a whole
/// frame: with more bytes appended, the server decoder gives the same result
/// and leaves the same bytes followed by the appended ones.
pub proof fn law_server_decode_ignores_later_bytes(
    s: Seq<u8>,
    t: Seq<u8>,
    r: Result<Option<ServerMessage>, ProtocolError>,
    rest: Seq<u8>,
)
    requires
        frame_complete(s),
        server_decode_in_bounds(s),
        server_decoded(s, r, rest),
    ensures
        frame_complete(s + t),
        server_decode_in_bounds(s + t),
        server_decoded(s + t, r, rest + t),
{
    lemma_whole_frame_prefix(s, t);
}

/// The same holds of the general decoder: bytes after a whole frame change
/// neither its result nor what it takes off the buffer.
pub proof fn law_message_decode_ignores_later_bytes(
    s: Seq<u8>,
    t: Seq<u8>,
    r: Result<Option<Message>, ProtocolError>,
    rest: Seq<u8>,
)
    requires
        frame_complete(s),
        server_decode_in_bounds(s),
        message_decoded(s, r, rest),
    ensures
        frame_complete(s + t),
        server_decode_in_bounds(s + t),
        message_decoded(s + t, r, rest + t),
{
    lemma_whole_frame_prefix(s, t);
}

/// A frame that the client encoder wrote is never taken for a server
/// message: the server decoder takes its header off and refuses it, whatever
/// bytes follow it.
pub proof fn law_server_decoder_refuses_client_frames(
    m: ClientMessage,
    t: Seq<u8>,
    r: Result<Option<ServerMessage>, ProtocolError>,
    rest: Seq<u8>,
)
    requires
        client_frame_len(m) < 8 + 0x1_0000_0000,
        server_decoded(client_frame(m) + t, r, rest),
    ensures
        server_decode_in_bounds(client_frame(m) + t),
        r is Err,
        rest == (client_frame(m) + t).skip(8),
{
    law_client_frame_header(m);
    lemma_whole_frame_prefix(client_frame(m), t);
}

/// Every server message survives encoding and decoding: the frame that the
/// encoder writes for it decodes, with either decoder, to the same message,
/// and exactly the frame is taken off, whatever bytes follow.
pub proof fn law_server_message_roundtrip(
    m: ServerMessage,
    t: Seq<u8>,
    r1: Result<Option<ServerMessage>, ProtocolError>,
    rest1: Seq<u8>,
    r2: Result<Option<Message>, ProtocolError>,
    rest2: Seq<u8>,
)
    requires
        server_decoded(server_frame(m) + t, r1, rest1),
        message_decoded(server_frame(m) + t, r2, rest2),
    ensures
        server_frame(m).len() == server_frame_len(m),
        server_decode_in_bounds(server_frame(m) + t),
        r1 == Ok::<Option<ServerMessage>, ProtocolError>(Some(m)),
        rest1 == t,
        r2 == Ok::<Option<Message>, ProtocolError>(Some(Message::Server(m))),
        rest2 == t,
{
    match m {
        ServerMessage::Ping(p) => {
            let f = server_frame(m);
            lemma_header_fields(0x8002, 4, be32_bytes(p.nonce));
            lemma_whole_frame_prefix(f, t);
            lemma_be32_in(header_bytes(0x8002, 4), p.nonce, Seq::empty());
            assert(header_bytes(0x8002, 4) + be32_bytes(p.nonce) + Seq::<u8>::empty() =~= f);
            assert(f.skip(12) =~= Seq::<u8>::empty());
            assert(Seq::<u8>::empty() + t =~= t);
        },
        ServerMessage::ServerGreet(_) => {
            let f = server_frame(m);
            lemma_header_fields(0x8001, 1, seq![0u8]);
            lemma_whole_frame_prefix(f, t);
            assert(f.skip(9) =~= Seq::<u8>::empty());
            assert(Seq::<u8>::empty() + t =~= t);
        },
    }
}

proof fn lemma_add_record_payload(a: AddRecord, r: Result<Option<Message>, ProtocolError>)
    requires
        text_bytes(a.rtype).len() <= 0xff,
        text_bytes(a.rname).len() <= 0xffff,
        add_record_decoded(client_frame(ClientMessage::AddRecord(a)).skip(8), r),
    ensures
        r matches Ok(Some(Message::Client(ClientMessage::AddRecord(d)))) && d.recid == a.recid
            && d.atype == a.atype && d.rtype@ == a.rtype@ && d.rname@ == a.rname@,
{
    let tb = text_bytes(a.rtype);
    let nb = text_bytes(a.rname);
    let p = client_frame(ClientMessage::AddRecord(a)).skip(8);
    let tail = seq![a.atype, tb.len() as u8] + be16_bytes(nb.len() as u16) + tb + nb;
    let lead = be32_bytes(a.recid) + seq![a.atype, tb.len() as u8];
    assert(p =~= Seq::<u8>::empty() + be32_bytes(a.recid) + tail);
    lemma_be32_in(Seq::empty(), a.recid, tail);
    assert(p =~= lead + be16_bytes(nb.len() as u16) + (tb + nb));
    lemma_be16_in(lead, nb.len() as u16, tb + nb);
    assert(p[4] == a.atype);
    assert(p[5] == tb.len());
    assert(p.subrange(8, 8 + p[5]) =~= tb);
    assert(p.subrange(8 + p[5], 8 + p[5] + be16_at(p, 6)) =~= nb);
    vstd::utf8::encode_utf8_valid_utf8(a.rtype@);
    vstd::utf8::encode_utf8_valid_utf8(a.rname@);
    let d = r->Ok_0->Some_0->Client_0->AddRecord_0;
    vstd::utf8::encode_utf8_decode_utf8(a.rtype@);
    vstd::utf8::encode_utf8_decode_utf8(d.rtype@);
    vstd::utf8::encode_utf8_decode_utf8(a.rname@);
    vstd::utf8::encode_utf8_decode_utf8(d.rname@);
}

proof fn lemma_add_info_payload(a: AddInfo, r: Result<Option<Message>, ProtocolError>)
    requires
        text_bytes(a.key).len() <= 0xff,
        text_bytes(a.value).len() <= 0xffff,
        add_info_decoded(client_frame(ClientMessage::AddInfo(a)).skip(8), r),
    ensures
        r matches Ok(Some(Message::Client(ClientMessage::AddInfo(d)))) && d.recid == a.recid
            && d.key@ == a.key@ && d.value@ == a.value@,
{
    let kb = text_bytes(a.key);
    let vb = text_bytes(a.value);
    let p = client_frame(ClientMessage::AddInfo(a)).skip(8);
    let tail = seq![kb.len() as u8, 0u8] + be16_bytes(vb.len() as u16) + kb + vb;
    let lead = be32_bytes(a.recid) + seq![kb.len() as u8, 0u8];
    assert(p =~= Seq::<u8>::empty() + be32_bytes(a.recid) + tail);
    lemma_be32_in(Seq::empty(), a.recid, tail);
    assert(p =~= lead + be16_bytes(vb.len() as u16) + (kb + vb));
    lemma_be16_in(lead, vb.len() as u16, kb + vb);
    assert(p[4] == kb.len());
    assert(p.subrange(8, 8 + p[4]) =~= kb);
    assert(p.subrange(8 + p[4], 8 + p[4] + be16_at(p, 6)) =~= vb);
    vstd::utf8::encode_utf8_valid_utf8(a.key@);
    vstd::utf8::encode_utf8_valid_utf8(a.value@);
    let d = r->Ok_0->Some_0->Client_0->AddInfo_0;
    vstd::utf8::encode_utf8_decode_utf8(a.key@);
    vstd::utf8::encode_utf8_decode_utf8(d.key@);
    vstd::utf8::encode_utf8_decode_utf8(a.value@);
    vstd::utf8::encode_utf8_decode_utf8(d.value@);
}

/// The payload the encoder writes for a client message whose strings fit
/// their length fields is read back, field by field, as that message.
proof fn lemma_client_payload_roundtrip(m: ClientMessage, r: Result<Option<Message>, ProtocolError>)
    requires
        client_fields_fit(m),
        client_payload_decoded(client_message_id(m), client_frame(m).skip(8), r),
    ensures
        r matches Ok(Some(Message::Client(d))) && same_client_message(d, m),
{
    let f = client_frame(m);
    match m {
        ClientMessage::ClientGreet(g) => {
            assert(f.skip(8) =~= be32_bytes(0) + be32_bytes(g.serv_key.0) + Seq::<u8>::empty());
            lemma_be32_in(be32_bytes(0), g.serv_key.0, Seq::empty());
        },
        ClientMessage::Pong(p) => {
            assert(f.skip(8) =~= Seq::<u8>::empty() + be32_bytes(p.nonce) + Seq::<u8>::empty());
            lemma_be32_in(Seq::empty(), p.nonce, Seq::empty());
        },
        ClientMessage::DelRecord(d) => {
            assert(f.skip(8) =~= Seq::<u8>::empty() + be32_bytes(d.recid) + Seq::<u8>::empty());
            lemma_be32_in(Seq::empty(), d.recid, Seq::empty());
        },
        ClientMessage::UploadDone(_) => {},
        ClientMessage::AddRecord(a) => {
            lemma_add_record_payload(a, r);
        },
        ClientMessage::AddInfo(a) => {
            lemma_add_info_payload(a, r);
        },
    }
}

/// Every client message whose strings fit their length fields survives
/// encoding and decoding: the general decoder reads the frame that the
/// encoder wrote back as a message with the same fields, and takes exactly
/// the frame off, whatever bytes follow.
pub proof fn law_client_message_roundtrip(
    m: ClientMessage,
    t: Seq<u8>,
    r: Result<Option<Message>, ProtocolError>,
    rest: Seq<u8>,
)
    requires
        client_fields_fit(m),
        message_decoded(client_frame(m) + t, r, rest),
    ensures
        server_decode_in_bounds(client_frame(m) + t),
        r matches Ok(Some(Message::Client(d))) && same_client_message(d, m),
        rest == t,
{
    let f = client_frame(m);
    law_client_frame_header(m);
    lemma_whole_frame_prefix(f, t);
    assert(frame_payload(f) =~= f.skip(8));
    assert(f.skip(f.len() as int) =~= Seq::<u8>::empty());
    assert(Seq::<u8>::empty() + t =~= t);
    lemma_client_payload_roundtrip(m, r);
}

/// What the client encoder leaves in a buffer: the bytes that were there
/// stay in front, untouched, and the bytes after them are one frame whose
/// header carries the magic number, the ID of the message's kind, and, when
/// the message's strings fit their length fields, the number of bytes that
/// follow the header.
pub proof fn law_client_encoding_appends_frame(m: ClientMessage, before: Seq<u8>, after: Seq<u8>)
    requires
        after == before + client_frame(m),
    ensures
        after.take(before.len() as int) == before,
        after.skip(before.len() as int) == client_frame(m),
        be16_at(after.skip(before.len() as int), 0) == MSG_MAGIC_ID,
        frame_msg_id(after.skip(before.len() as int)) == message_id_code(client_message_id(m)),
        client_fields_fit(m) ==> be32_at(after.skip(before.len() as int), 4) == after.len() - before.len() - 8,
{
    law_client_frame_header(m);
    assert(after.take(before.len() as int) =~= before);
    assert(after.skip(before.len() as int) =~= client_frame(m));
}

/// The client encoder writes the same bytes as the general encoder given
/// the same message as a client message.
pub proof fn law_client_codec_matches_message_codec(m: ClientMessage)
    ensures
        message_frame(Message::Client(m)) == client_frame(m),
        message_frame_len(Message::Client(m)) == client_frame_len(m),
{
}

} // verus!
