//! The errors of the relay core.

use vstd::prelude::*;
use vstd::string::StringExecFns;

verus! {

/// Why a byte string is not an encoded control message.
#[derive(Debug, Clone, Copy, PartialEq, Eq, Structural)]
pub enum DecodeError {
    /// The bytes end inside a field.
    UnexpectedEnd,
    /// A variable-width integer runs over ten bytes or does not fit 64 bits.
    InvalidVarint,
    /// A field key names field number zero or a wire type that is not in use.
    InvalidKey,
    /// A known field arrived with a wire type that its schema does not allow.
    WrongWireType,
    /// A string field is not valid UTF-8.
    InvalidUtf8,
}

/// What can go wrong on a relay connection.
#[derive(Debug, Clone, PartialEq, Eq)]
pub enum NRelayError {
    /// Transport-level failure, with the transport's own description.
    Io(String),
    /// A malformed or unexpected message.
    Protocol(String),
    /// Token mismatch or wrong mode.
    Auth(String),
    /// The token was valid but the tunnel has gone since.
    TunnelNotFound(String),
    /// Invalid configuration; fatal at start-up.
    Config(String),
    /// The peer closed the connection.
    ConnectionClosed,
    /// A frame's payload is not an encoded control message.
    Decode(DecodeError),
    /// A message cannot be framed, with the reason.
    Encode(String),
}

impl DecodeError {
    /// The text of this error.
    pub open spec fn text(self) -> Seq<char> {
        match self {
            DecodeError::UnexpectedEnd => "unexpected end of message"@,
            DecodeError::InvalidVarint => "invalid varint"@,
            DecodeError::InvalidKey => "invalid field key"@,
            DecodeError::WrongWireType => "invalid wire type"@,
            DecodeError::InvalidUtf8 => "invalid string value: data is not UTF-8 encoded"@,
        }
    }

    /// A description of this error for a log line.
    pub fn describe(&self) -> (s: &'static str)
        ensures
            s@ == self.text(),
    {
        match self {
            DecodeError::UnexpectedEnd => "unexpected end of message",
            DecodeError::InvalidVarint => "invalid varint",
            DecodeError::InvalidKey => "invalid field key",
            DecodeError::WrongWireType => "invalid wire type",
            DecodeError::InvalidUtf8 => "invalid string value: data is not UTF-8 encoded",
        }
    }
}

impl NRelayError {
    /// Whether this is a protocol error with the detail given.
    pub open spec fn is_protocol(self, detail: Seq<char>) -> bool {
        match self {
            NRelayError::Protocol(d) => d@ == detail,
            _ => false,
        }
    }

    /// Whether this is an authentication error with the detail given.
    pub open spec fn is_auth(self, detail: Seq<char>) -> bool {
        match self {
            NRelayError::Auth(d) => d@ == detail,
            _ => false,
        }
    }

    /// Whether this says that the tunnel `id` was not found.
    pub open spec fn is_tunnel_not_found(self, id: Seq<char>) -> bool {
        match self {
            NRelayError::TunnelNotFound(d) => d@ == id,
            _ => false,
        }
    }

    /// Whether this is a configuration error with the detail given.
    pub open spec fn is_config(self, detail: Seq<char>) -> bool {
        match self {
            NRelayError::Config(d) => d@ == detail,
            _ => false,
        }
    }

    /// Whether this is an encoding error with the detail given.
    pub open spec fn is_encode(self, detail: Seq<char>) -> bool {
        match self {
            NRelayError::Encode(d) => d@ == detail,
            _ => false,
        }
    }

    /// The text of this error: what kind it is, then its detail.
    pub open spec fn text(self) -> Seq<char> {
        match self {
            NRelayError::Io(detail) => "IO error: "@ + detail@,
            NRelayError::Protocol(detail) => "Protocol error: "@ + detail@,
            NRelayError::Auth(detail) => "Authentication failed: "@ + detail@,
            NRelayError::TunnelNotFound(detail) => "Tunnel not found: "@ + detail@,
            NRelayError::Config(detail) => "Invalid configuration: "@ + detail@,
            NRelayError::ConnectionClosed => "Connection closed"@,
            NRelayError::Decode(e) => "Decode error: "@ + e.text(),
            NRelayError::Encode(detail) => "Encode error: "@ + detail@,
        }
    }

    /// This error as a line of text.
    pub fn message(&self) -> (s: String)
        ensures
            s@ == self.text(),
    {
        match self {
            NRelayError::Io(detail) => "IO error: ".to_owned().concat(detail.as_str()),
            NRelayError::Protocol(detail) => "Protocol error: ".to_owned().concat(detail.as_str()),
            NRelayError::Auth(detail) => "Authentication failed: ".to_owned().concat(
                detail.as_str(),
            ),
            NRelayError::TunnelNotFound(detail) => "Tunnel not found: ".to_owned().concat(
                detail.as_str(),
            ),
            NRelayError::Config(detail) => "Invalid configuration: ".to_owned().concat(
                detail.as_str(),
            ),
            NRelayError::ConnectionClosed => "Connection closed".to_owned(),
            NRelayError::Decode(e) => "Decode error: ".to_owned().concat(e.describe()),
            NRelayError::Encode(detail) => "Encode error: ".to_owned().concat(detail.as_str()),
        }
    }
}

} // verus!
