//! The ways in which a call can break, as opposed to report a failure.

use vstd::prelude::*;
use vstd::string::*;

verus! {

/// The transport failed under a call in flight.
#[derive(Clone, Copy, Debug, PartialEq, Eq, Structural)]
pub enum ConnectionError {
    /// The stream ended before the line that the call was waiting for.
    Closed,
}

/// A classified payload did not decode into the type expected of it.
#[derive(Clone, Debug, PartialEq, Eq)]
pub struct ProtocolError {
    /// The text that was handed to the decoder.
    pub text: String,
    /// What the decoder said of it.
    pub diagnostic: String,
}

/// Why a call produced no outcome.
#[derive(Clone, Debug, PartialEq, Eq)]
pub enum ClientError {
    /// The transport failed; the call is lost.
    Connection(ConnectionError),
    /// The server did not answer the secret with a line that begins with `OK`.
    Authentication,
    /// A payload did not decode.
    Protocol(ProtocolError),
}

impl ProtocolError {
    /// The diagnostic, a colon and a space, and the offending text.
    pub open spec fn message_of(&self) -> Seq<char> {
        self.diagnostic@ + seq![':', ' '] + self.text@
    }

    /// Describes the error in one line.
    pub fn message(&self) -> (m: String)
        ensures
            m@ == self.message_of(),
    {
        proof {
            reveal_strlit(": ");
        }
        let mut m = self.diagnostic.clone();
        m.append(": ");
        m.append(self.text.as_str());
        assert(m@ =~= self.message_of());
        m
    }
}

impl ClientError {
    /// The text that `message` gives for this error.
    pub open spec fn message_of(&self) -> Seq<char> {
        match self {
            ClientError::Connection(ConnectionError::Closed) => "Connection closed"@,
            ClientError::Authentication => "Handshake failed"@,
            ClientError::Protocol(e) => e.message_of(),
        }
    }

    /// Describes the error in one line.
    pub fn message(&self) -> (m: String)
        ensures
            m@ == self.message_of(),
    {
        match self {
            ClientError::Connection(ConnectionError::Closed) => "Connection closed".to_owned(),
            ClientError::Authentication => "Handshake failed".to_owned(),
            ClientError::Protocol(e) => e.message(),
        }
    }
}

} // verus!
