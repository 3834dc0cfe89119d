//! Identifiers and message types of the record synchronisation protocol.

use vstd::prelude::*;

use crate::error::ProtocolError;

verus! {

/// A message ID as it travels on the wire.
#[derive(Copy, Clone, Debug, PartialEq, Eq, Hash, Structural)]
pub struct WireId(pub u16);

/// The key by which a server identifies itself to its clients.
#[derive(Copy, Clone, Debug, PartialEq, Eq, Hash, Structural)]
pub struct ServerKey(pub u32);

impl From<u16> for WireId {
    fn from(value: u16) -> (id: WireId)
        ensures
            id.0 == value,
    {
        WireId(value)
    }
}

impl vstd::std_specs::convert::FromSpecImpl<u16> for WireId {
    open spec fn obeys_from_spec() -> bool {
        true
    }

    open spec fn from_spec(v: u16) -> WireId {
        WireId(v)
    }
}

impl From<WireId> for u16 {
    fn from(id: WireId) -> (value: u16)
        ensures
            value == id.0,
    {
        id.0
    }
}

impl vstd::std_specs::convert::FromSpecImpl<WireId> for u16 {
    open spec fn obeys_from_spec() -> bool {
        true
    }

    open spec fn from_spec(v: WireId) -> u16 {
        v.0
    }
}

impl From<u32> for ServerKey {
    fn from(value: u32) -> (key: ServerKey)
        ensures
            key.0 == value,
    {
        ServerKey(value)
    }
}

impl vstd::std_specs::convert::FromSpecImpl<u32> for ServerKey {
    open spec fn obeys_from_spec() -> bool {
        true
    }

    open spec fn from_spec(v: u32) -> ServerKey {
        ServerKey(v)
    }
}

impl From<ServerKey> for u32 {
    fn from(key: ServerKey) -> (value: u32)
        ensures
            value == key.0,
    {
        key.0
    }
}

impl vstd::std_specs::convert::FromSpecImpl<ServerKey> for u32 {
    open spec fn obeys_from_spec() -> bool {
        true
    }

    open spec fn from_spec(v: ServerKey) -> u32 {
        v.0
    }
}

/// Converting a number into a `WireId` and back gives the number again, and
/// converting a `WireId` into its number and back gives the same `WireId`.
pub proof fn law_wire_id_roundtrip(value: u16, id: WireId)
    ensures
        <u16 as vstd::std_specs::convert::FromSpec<WireId>>::from_spec(
            <WireId as vstd::std_specs::convert::FromSpec<u16>>::from_spec(value),
        ) == value,
        <WireId as vstd::std_specs::convert::FromSpec<u16>>::from_spec(
            <u16 as vstd::std_specs::convert::FromSpec<WireId>>::from_spec(id),
        ) == id,
{
}

/// Converting a number into a `ServerKey` and back gives the number again, and
/// converting a `ServerKey` into its number and back gives the same key.
pub proof fn law_server_key_roundtrip(value: u32, key: ServerKey)
    ensures
        <u32 as vstd::std_specs::convert::FromSpec<ServerKey>>::from_spec(
            <ServerKey as vstd::std_specs::convert::FromSpec<u32>>::from_spec(value),
        ) == value,
        <ServerKey as vstd::std_specs::convert::FromSpec<u32>>::from_spec(
            <u32 as vstd::std_specs::convert::FromSpec<ServerKey>>::from_spec(key),
        ) == key,
{
}

/// Whether an `AddRecord` message announces a record or an alias.
#[derive(Copy, Clone, Debug, PartialEq, Eq, Structural)]
pub enum AddRecordType {
    Record,
    Alias,
}

impl AddRecordType {
    /// The number that stands for this type in an `AddRecord` message.
    pub open spec fn spec_code(self) -> u8 {
        match self {
            AddRecordType::Record => 0,
            AddRecordType::Alias => 1,
        }
    }

    /// The number that stands for this type in an `AddRecord` message.
    pub fn code(&self) -> (c: u8)
        ensures
            c == self.spec_code(),
    {
        match self {
            AddRecordType::Record => 0,
            AddRecordType::Alias => 1,
        }
    }
}

/// The kinds of message of the protocol.
#[derive(Copy, Clone, Debug, PartialEq, Eq, Structural)]
pub enum MessageID {
    ServerGreet,
    ClientGreet,
    Ping,
    Pong,
    AddRecord,
    DelRecord,
    UploadDone,
    AddInfo,
}

/// The number that stands for a kind of message on the wire.
pub open spec fn message_id_code(id: MessageID) -> u16 {
    match id {
        MessageID::ServerGreet => 0x8001,
        MessageID::ClientGreet => 0x0001,
        MessageID::Ping => 0x8002,
        MessageID::Pong => 0x0002,
        MessageID::AddRecord => 0x0003,
        MessageID::DelRecord => 0x0004,
        MessageID::UploadDone => 0x0005,
        MessageID::AddInfo => 0x0006,
    }
}

/// The kind of message that a number on the wire stands for, if any.
pub open spec fn message_id_of_code(value: u16) -> Option<MessageID> {
    if value == 0x8001 {
        Some(MessageID::ServerGreet)
    } else if value == 0x0001 {
        Some(MessageID::ClientGreet)
    } else if value == 0x8002 {
        Some(MessageID::Ping)
    } else if value == 0x0002 {
        Some(MessageID::Pong)
    } else if value == 0x0003 {
        Some(MessageID::AddRecord)
    } else if value == 0x0004 {
        Some(MessageID::DelRecord)
    } else if value == 0x0005 {
        Some(MessageID::UploadDone)
    } else if value == 0x0006 {
        Some(MessageID::AddInfo)
    } else {
        None
    }
}

/// What `MessageID::try_from` gives for a number.
pub open spec fn message_id_try_from(value: u16) -> Result<MessageID, ProtocolError> {
    match message_id_of_code(value) {
        Some(id) => Ok(id),
        None => Err(ProtocolError::UnknownMessageId(value)),
    }
}

impl TryFrom<u16> for MessageID {
    type Error = ProtocolError;

    fn try_from(value: u16) -> (r: Result<MessageID, ProtocolError>)
        ensures
            r == message_id_try_from(value),
    {
        match value {
            0x8001 => Ok(MessageID::ServerGreet),
            0x0001 => Ok(MessageID::ClientGreet),
            0x8002 => Ok(MessageID::Ping),
            0x0002 => Ok(MessageID::Pong),
            0x0003 => Ok(MessageID::AddRecord),
            0x0004 => Ok(MessageID::DelRecord),
            0x0005 => Ok(MessageID::UploadDone),
            0x0006 => Ok(MessageID::AddInfo),
            _ => Err(ProtocolError::UnknownMessageId(value)),
        }
    }
}

impl vstd::std_specs::convert::TryFromSpecImpl<u16> for MessageID {
    open spec fn obeys_try_from_spec() -> bool {
        true
    }

    open spec fn try_from_spec(v: u16) -> Result<MessageID, ProtocolError> {
        message_id_try_from(v)
    }
}

impl From<MessageID> for u16 {
    fn from(msg_id: MessageID) -> (value: u16)
        ensures
            value == message_id_code(msg_id),
    {
        match msg_id {
            MessageID::ServerGreet => 0x8001,
            MessageID::ClientGreet => 0x0001,
            MessageID::Ping => 0x8002,
            MessageID::Pong => 0x0002,
            MessageID::AddRecord => 0x0003,
            MessageID::DelRecord => 0x0004,
            MessageID::UploadDone => 0x0005,
            MessageID::AddInfo => 0x0006,
        }
    }
}

impl vstd::std_specs::convert::FromSpecImpl<MessageID> for u16 {
    open spec fn obeys_from_spec() -> bool {
        true
    }

    open spec fn from_spec(v: MessageID) -> u16 {
        message_id_code(v)
    }
}

/// Every kind of message survives the trip to its number and back, and a
/// number that names a kind of message is that kind's number: the two
/// conversions are inverse to each other on the eight known numbers, and every
/// other number is refused with `UnknownMessageId` carrying that number.
pub proof fn law_message_id_roundtrip(id: MessageID, value: u16)
    ensures
        message_id_try_from(message_id_code(id)) == Ok::<MessageID, ProtocolError>(id),
        message_id_try_from(value) matches Ok(found) ==> message_id_code(found) == value,
        message_id_of_code(value) is None ==> message_id_try_from(value)
            == Err::<MessageID, ProtocolError>(ProtocolError::UnknownMessageId(value)),
{
}

/// Distinct kinds of message have distinct numbers on the wire.
pub proof fn law_message_id_codes_distinct(a: MessageID, b: MessageID)
    ensures
        message_id_code(a) == message_id_code(b) ==> a == b,
{
}

/// Sent by the server to greet a client.
#[derive(Debug, Clone, PartialEq)]
pub struct ServerGreet;

/// Sent by the server to check that a client is alive.
#[derive(Debug, Clone, PartialEq)]
pub struct Ping {
    pub nonce: u32,
}

/// Sent by a client to answer the server's greeting.
#[derive(Debug, Clone, PartialEq)]
pub struct ClientGreet {
    pub serv_key: ServerKey,
}

/// Sent by a client in answer to a `Ping`.
#[derive(Debug, Clone, PartialEq)]
pub struct Pong {
    pub nonce: u32,
}

/// Announces a record (or an alias of one) of the client.
#[derive(Debug, Clone, PartialEq)]
pub struct AddRecord {
    pub recid: u32,
    pub atype: u8,
    pub rtype: String,
    pub rname: String,
}

/// Withdraws a record that was announced before.
#[derive(Debug, Clone, PartialEq)]
pub struct DelRecord {
    pub recid: u32,
}

/// Marks the end of a client's upload.
#[derive(Debug, Clone, PartialEq)]
pub struct UploadDone;

/// Attaches a key and value to a record, or to the client when `recid` is 0.
#[derive(Debug, Clone, PartialEq)]
pub struct AddInfo {
    pub recid: u32,
    pub key: String,
    pub value: String,
}

/// Messages sent from the server to the client.
#[derive(Debug, Clone, PartialEq)]
pub enum ServerMessage {
    ServerGreet(ServerGreet),
    Ping(Ping),
}

/// Messages sent from the client to the server.
#[derive(Debug, Clone, PartialEq)]
pub enum ClientMessage {
    ClientGreet(ClientGreet),
    Pong(Pong),
    AddRecord(AddRecord),
    DelRecord(DelRecord),
    UploadDone(UploadDone),
    AddInfo(AddInfo),
}

/// A message of either direction.
#[derive(Debug, Clone, PartialEq)]
pub enum Message {
    Server(ServerMessage),
    Client(ClientMessage),
}

} // verus!
