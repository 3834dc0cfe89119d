//! The decisions a server takes within one client session: which messages
//! it accepts in which phase, how the phase advances, and what it answers.
//! Reading and writing the connection is left to the caller, which hands
//! each received message to `SessionMachine::handle_message` and sends the
//! reply that it returns.

use vstd::prelude::*;
use vstd::string::*;

use crate::inventory::{
    deletion_gathered, info_gathered, record_gathered, SourceAddress, TextSet, Transaction,
};
use crate::types::{ClientMessage, Message, Pong, ServerGreet, ServerMessage, WireId};

verus! {

/// The phases of a client session.
#[derive(Copy, Clone, Debug, PartialEq, Eq, Structural)]
pub enum SessionState {
    Greeting,
    Upload,
    PingPong,
}

/// The order of the phases: a session only moves forward.
pub open spec fn phase_rank(s: SessionState) -> int {
    match s {
        SessionState::Greeting => 0,
        SessionState::Upload => 1,
        SessionState::PingPong => 2,
    }
}

/// Why a session refused a message.
#[derive(Copy, Clone, Debug, PartialEq, Eq, Structural)]
pub enum SessionError {
    /// The message does not belong to the phase the session is in.
    UnexpectedMessage(SessionState),
}

/// The text of a session error, as the user reads it.
pub open spec fn session_error_text(e: SessionError) -> Seq<char> {
    match e {
        SessionError::UnexpectedMessage(SessionState::Greeting) => "Unexpected message in Greeting state"@,
        SessionError::UnexpectedMessage(SessionState::Upload) => "Unexpected message in Upload state"@,
        SessionError::UnexpectedMessage(SessionState::PingPong) => "Unexpected message in PingPong state"@,
    }
}

impl SessionError {
    /// The message that describes this error.
    pub fn to_string(&self) -> (text: String)
        ensures
            text@ == session_error_text(*self),
    {
        match self {
            SessionError::UnexpectedMessage(SessionState::Greeting) => String::from_str(
                "Unexpected message in Greeting state",
            ),
            SessionError::UnexpectedMessage(SessionState::Upload) => String::from_str(
                "Unexpected message in Upload state",
            ),
            SessionError::UnexpectedMessage(SessionState::PingPong) => String::from_str(
                "Unexpected message in PingPong state",
            ),
        }
    }
}

/// One step of a session: from its phase and the client's key so far, and a
/// received message, the next phase, the next key, and the reply to send (or
/// the refusal).
///
/// - Greeting: a `ClientGreet` records the client's key and opens the upload.
/// - Upload: `AddRecord`, `DelRecord` and `AddInfo` are accepted; `UploadDone`
///   ends the upload.
/// - PingPong: a `Ping` is answered with a `Pong` of the same nonce.
///
/// Any other message is refused and changes nothing.
pub open spec fn session_step(state: SessionState, key: Option<u32>, msg: Message) -> (
    SessionState,
    Option<u32>,
    Result<Option<Message>, SessionError>,
) {
    let refused = (state, key, Err(SessionError::UnexpectedMessage(state)));
    match state {
        SessionState::Greeting => match msg {
            Message::Client(ClientMessage::ClientGreet(g)) => (
                SessionState::Upload,
                Some(g.serv_key.0),
                Ok(None),
            ),
            _ => refused,
        },
        SessionState::Upload => match msg {
            Message::Client(ClientMessage::AddRecord(_)) => (state, key, Ok(None)),
            Message::Client(ClientMessage::DelRecord(_)) => (state, key, Ok(None)),
            Message::Client(ClientMessage::AddInfo(_)) => (state, key, Ok(None)),
            Message::Client(ClientMessage::UploadDone(_)) => (SessionState::PingPong, key, Ok(None)),
            _ => refused,
        },
        SessionState::PingPong => match msg {
            Message::Server(ServerMessage::Ping(p)) => (
                state,
                key,
                Ok(Some(Message::Client(ClientMessage::Pong(Pong { nonce: p.nonce })))),
            ),
            _ => refused,
        },
    }
}

/// Whether a message ends the upload: an `UploadDone` received in the
/// upload phase. That is when what the upload gathered is handed over to be
/// synchronized.
pub open spec fn upload_handed_over(state: SessionState, msg: Message) -> bool {
    state == SessionState::Upload && msg matches Message::Client(ClientMessage::UploadDone(_))
}

/// What the upload gathered so far becomes when a message is received: in
/// the upload phase, `AddRecord`, `AddInfo` and `DelRecord` messages are
/// gathered into it, and `UploadDone` hands it over and leaves a fresh one
/// for the same client; any other message, and any message in another
/// phase, leaves it as it was.
pub open spec fn upload_gathered(state: SessionState, before: Transaction, after: Transaction, msg: Message) -> bool {
    if state == SessionState::Upload {
        match msg {
            Message::Client(ClientMessage::AddRecord(m)) => record_gathered(before, after, m),
            Message::Client(ClientMessage::AddInfo(m)) => info_gathered(before, after, m),
            Message::Client(ClientMessage::DelRecord(m)) => deletion_gathered(before, after, m),
            Message::Client(ClientMessage::UploadDone(_)) => fresh_transaction(after, before.source_address),
            _ => after == before,
        }
    } else {
        after == before
    }
}

/// Whether a transaction holds nothing yet but the address it comes from.
pub open spec fn fresh_transaction(t: Transaction, source: Option<SourceAddress>) -> bool {
    &&& t.source_address == source
    &&& t.client_infos.entries_view() == Seq::<(Seq<char>, Seq<char>)>::empty()
    &&& t.updates.entries_view() == Seq::<(WireId, crate::inventory::RecordUpdate)>::empty()
    &&& t.records_to_delete.items_view() == Seq::<Seq<char>>::empty()
    &&& !t.initial
    &&& t.connected
}

/// The state of one client session: its phase, the client's key, what the
/// client's upload has brought so far, and the finished upload that waits to
/// be handed to the synchronizer.
pub struct SessionMachine {
    pub state: SessionState,
    pub client_key: Option<u32>,
    pub transaction: Transaction,
    pub completed: Option<Transaction>,
}

fn fresh(source: Option<SourceAddress>) -> (t: Transaction)
    ensures
        fresh_transaction(t, source),
{
    let mut t = Transaction::new();
    t.source_address = source;
    t
}

impl SessionMachine {
    /// A session with a client at `source` that waits for the client's
    /// greeting.
    pub fn new(source: Option<SourceAddress>) -> (s: SessionMachine)
        ensures
            s.state == SessionState::Greeting,
            s.client_key is None,
            fresh_transaction(s.transaction, source),
            s.completed is None,
    {
        SessionMachine {
            state: SessionState::Greeting,
            client_key: None,
            transaction: fresh(source),
            completed: None,
        }
    }

    /// Takes the finished upload, if one waits to be synchronized; the
    /// session keeps nothing of it.
    pub fn take_completed(&mut self) -> (t: Option<Transaction>)
        ensures
            t == old(self).completed,
            final(self).completed is None,
            final(self).state == old(self).state,
            final(self).client_key == old(self).client_key,
            final(self).transaction == old(self).transaction,
    {
        let mut t: Option<Transaction> = None;
        std::mem::swap(&mut t, &mut self.completed);
        t
    }

    /// The message the server sends as soon as a client connects.
    pub fn greeting() -> (m: Message)
        ensures
            m == Message::Server(ServerMessage::ServerGreet(ServerGreet)),
    {
        Message::Server(ServerMessage::ServerGreet(ServerGreet))
    }

    /// Takes one received message: advances the session, and gives the
    /// reply to send, if any, or the reason the message is refused.
    pub fn handle_message(&mut self, message: Message) -> (r: Result<Option<Message>, SessionError>)
        ensures
            (final(self).state, final(self).client_key, r) == session_step(
                old(self).state,
                old(self).client_key,
                message,
            ),
            upload_gathered(old(self).state, old(self).transaction, final(self).transaction, message),
            final(self).completed == (if upload_handed_over(old(self).state, message) {
                Some(old(self).transaction)
            } else {
                old(self).completed
            }),
    {
        match self.state {
            SessionState::Greeting => match message {
                Message::Client(ClientMessage::ClientGreet(g)) => {
                    self.client_key = Some(g.serv_key.0);
                    self.state = SessionState::Upload;
                    Ok(None)
                },
                _ => Err(SessionError::UnexpectedMessage(SessionState::Greeting)),
            },
            SessionState::Upload => match message {
                Message::Client(ClientMessage::AddRecord(m)) => {
                    self.transaction.add_record(m);
                    Ok(None)
                },
                Message::Client(ClientMessage::DelRecord(m)) => {
                    self.transaction.delete_record(m);
                    Ok(None)
                },
                Message::Client(ClientMessage::AddInfo(m)) => {
                    self.transaction.add_info(m);
                    Ok(None)
                },
                Message::Client(ClientMessage::UploadDone(_)) => {
                    let source = match &self.transaction.source_address {
                        Some(a) => Some(a.clone()),
                        None => None,
                    };
                    let mut done = fresh(source);
                    std::mem::swap(&mut done, &mut self.transaction);
                    self.completed = Some(done);
                    self.state = SessionState::PingPong;
                    Ok(None)
                },
                _ => Err(SessionError::UnexpectedMessage(SessionState::Upload)),
            },
            SessionState::PingPong => match message {
                Message::Server(ServerMessage::Ping(p)) => Ok(
                    Some(Message::Client(ClientMessage::Pong(Pong { nonce: p.nonce }))),
                ),
                _ => Err(SessionError::UnexpectedMessage(SessionState::PingPong)),
            },
        }
    }
}

/// A session never moves backward, and moves at most one phase per message.
pub proof fn law_session_moves_forward(state: SessionState, key: Option<u32>, msg: Message)
    ensures
        phase_rank(state) <= phase_rank(session_step(state, key, msg).0) <= phase_rank(state) + 1,
{
}

/// A refused message changes nothing: the phase and the key stay as they
/// were, and the refusal names the phase.
pub proof fn law_session_refusal_changes_nothing(state: SessionState, key: Option<u32>, msg: Message)
    ensures
        session_step(state, key, msg).2 is Err ==> {
            &&& session_step(state, key, msg).0 == state
            &&& session_step(state, key, msg).1 == key
            &&& session_step(state, key, msg).2 == Err::<Option<Message>, SessionError>(
                SessionError::UnexpectedMessage(state),
            )
        },
{
}

/// Once past the greeting, a session knows the client's key: the key is set
/// by the greeting and never lost afterwards.
pub proof fn law_session_keeps_client_key(state: SessionState, key: Option<u32>, msg: Message)
    requires
        state != SessionState::Greeting ==> key is Some,
    ensures
        session_step(state, key, msg).0 != SessionState::Greeting ==> session_step(state, key, msg).1 is Some,
        state != SessionState::Greeting ==> session_step(state, key, msg).1 == key,
{
}

/// The only reply a session ever sends is a `Pong` that echoes the nonce of
/// a `Ping` received in the ping-pong phase.
pub proof fn law_session_replies_only_pong(state: SessionState, key: Option<u32>, msg: Message)
    ensures
        session_step(state, key, msg).2 matches Ok(Some(reply)) ==> {
            &&& state == SessionState::PingPong
            &&& msg matches Message::Server(ServerMessage::Ping(p))
            &&& reply == Message::Client(ClientMessage::Pong(Pong { nonce: p.nonce }))
        },
{
}

/// The gathered upload is handed over exactly when the upload phase ends:
/// when a message moves the session from the upload phase to the ping-pong
/// phase, and at no other message.
pub proof fn law_upload_handed_over_when_upload_ends(state: SessionState, key: Option<u32>, msg: Message)
    ensures
        upload_handed_over(state, msg) <==> (state == SessionState::Upload && session_step(
            state,
            key,
            msg,
        ).0 == SessionState::PingPong),
{
}

/// What the upload has gathered changes only while uploading: a refused
/// message, and every message outside the upload phase, leaves it as it
/// was.
pub proof fn law_session_gathers_only_uploads(
    state: SessionState,
    key: Option<u32>,
    before: Transaction,
    after: Transaction,
    msg: Message,
)
    requires
        upload_gathered(state, before, after, msg),
    ensures
        (state != SessionState::Upload || session_step(state, key, msg).2 is Err) ==> after == before,
{
}

} // verus!
