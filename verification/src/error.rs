//! Errors of the wire protocol.

use vstd::prelude::*;
use vstd::string::*;

use crate::text::{append_decimal, append_hex4, decimal_text, hex4_text};

verus! {

/// `std::io::Error`, carried through by the `Io` variant and never looked into.
#[verifier::external_type_specification]
#[verifier::external_body]
pub struct ExIoError(std::io::Error);

/// Protocol-level errors that can occur during wire protocol communication.
#[derive(Debug)]
pub enum ProtocolError {
    UnknownMessageId(u16),
    InvalidWireId,
    InsufficientData { expected: usize, got: usize },
    InvalidMessageFormat(String),
    Io(std::io::Error),
}

impl From<std::io::Error> for ProtocolError {
    fn from(e: std::io::Error) -> (r: ProtocolError)
        ensures
            r == ProtocolError::Io(e),
    {
        ProtocolError::Io(e)
    }
}

impl vstd::std_specs::convert::FromSpecImpl<std::io::Error> for ProtocolError {
    open spec fn obeys_from_spec() -> bool {
        true
    }

    open spec fn from_spec(e: std::io::Error) -> ProtocolError {
        ProtocolError::Io(e)
    }
}

/// The text that describes an error, as the user reads it. For an I/O error
/// the text after the prefix is the one that the operating system or the
/// code that made the error gave.
pub open spec fn error_text(e: ProtocolError, text: Seq<char>) -> bool {
    match e {
        ProtocolError::UnknownMessageId(id) => text == "Unknown message ID: 0x"@ + hex4_text(id),
        ProtocolError::InvalidWireId => text == "Invalid wire ID"@,
        ProtocolError::InsufficientData { expected, got } => text == "Insufficient data: expected "@
            + decimal_text(expected as nat) + " bytes, got "@ + decimal_text(got as nat),
        ProtocolError::InvalidMessageFormat(s) => text == "Invalid message format: "@ + s@,
        ProtocolError::Io(_) => text.len() >= 10 && text.subrange(0, 10) == "IO error: "@,
    }
}

/// The text by which an I/O error displays itself (`Display` of
/// `std::io::Error`). Nothing is claimed of it: it may come from the
/// operating system.
#[verifier::external_body]
fn io_error_display(e: &std::io::Error) -> String {
    format!("{}", e)
}

impl ProtocolError {
    /// The message that describes this error.
    pub fn to_string(&self) -> (text: String)
        ensures
            error_text(*self, text@),
    {
        match self {
            ProtocolError::UnknownMessageId(id) => {
                let mut s = String::from_str("Unknown message ID: 0x");
                append_hex4(&mut s, *id);
                proof {
                    reveal_strlit("Unknown message ID: 0x");
                }
                s
            },
            ProtocolError::InvalidWireId => {
                proof {
                    reveal_strlit("Invalid wire ID");
                }
                String::from_str("Invalid wire ID")
            },
            ProtocolError::InsufficientData { expected, got } => {
                let mut s = String::from_str("Insufficient data: expected ");
                append_decimal(&mut s, *expected as u64);
                s.append(" bytes, got ");
                append_decimal(&mut s, *got as u64);
                s
            },
            ProtocolError::InvalidMessageFormat(m) => {
                let mut s = String::from_str("Invalid message format: ");
                s.append(m.as_str());
                s
            },
            ProtocolError::Io(e) => {
                let mut s = String::from_str("IO error: ");
                s.append(io_error_display(e).as_str());
                proof {
                    reveal_strlit("IO error: ");
                    assert(s@.subrange(0, 10) =~= "IO error: "@);
                }
                s
            },
        }
    }
}

} // verus!
