//! What can go wrong with a connection.

use vstd::prelude::*;
use vstd::string::*;

use crate::text::concat;

verus! {

/// Errors of transports.
#[derive(Debug)]
pub enum ProtocolError {
    Connect(String),
    Auth(String),
    Channel(String),
    Agent(String),
    Sftp(String),
    Io(String),
    NotImplemented(&'static str),
}

impl ProtocolError {
    /// What [`ProtocolError::message`] says.
    pub open spec fn message_text(self) -> Seq<char> {
        match self {
            ProtocolError::Connect(what) => "connection failed: "@ + what@,
            ProtocolError::Auth(what) => "authentication failed: "@ + what@,
            ProtocolError::Channel(what) => "channel error: "@ + what@,
            ProtocolError::Agent(what) => "agent forwarding error: "@ + what@,
            ProtocolError::Sftp(what) => "sftp error: "@ + what@,
            ProtocolError::Io(what) => "I/O error: "@ + what@,
            ProtocolError::NotImplemented(what) => "feature not implemented yet: "@ + what@,
        }
    }

    /// The error in words.
    pub fn message(&self) -> (r: String)
        ensures
            r@ == self.message_text(),
    {
        match self {
            ProtocolError::Connect(what) => concat("connection failed: ", what.as_str()),
            ProtocolError::Auth(what) => concat("authentication failed: ", what.as_str()),
            ProtocolError::Channel(what) => concat("channel error: ", what.as_str()),
            ProtocolError::Agent(what) => concat("agent forwarding error: ", what.as_str()),
            ProtocolError::Sftp(what) => concat("sftp error: ", what.as_str()),
            ProtocolError::Io(what) => concat("I/O error: ", what.as_str()),
            ProtocolError::NotImplemented(what) => concat("feature not implemented yet: ", what),
        }
    }
}

} // verus!
