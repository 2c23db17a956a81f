//! What can go wrong with a tunnel.

use vstd::prelude::*;
use vstd::string::*;

use crate::ids;
use crate::ids::{format_id, Id};
use crate::text::concat;

verus! {

/// Errors of the tunnel manager and its drivers.
#[derive(Debug)]
pub enum TunnelError {
    NotFound(Id),
    AlreadyRunning(Id),
    /// The definition lacks something that its kind of forwarding needs.
    InvalidSpec(String),
    Driver(String),
    Serde(String),
}

impl TunnelError {
    /// What [`TunnelError::message`] says.
    pub open spec fn message_text(self) -> Seq<char> {
        match self {
            TunnelError::NotFound(id) => "tunnel not found: "@ + ids::id_text(id),
            TunnelError::AlreadyRunning(id) => "tunnel already running: "@ + ids::id_text(id),
            TunnelError::InvalidSpec(what) => "invalid tunnel spec: "@ + what@,
            TunnelError::Driver(what) => "driver error: "@ + what@,
            TunnelError::Serde(what) => "(de)serialization error: "@ + what@,
        }
    }

    /// The error in words.
    pub fn message(&self) -> (r: String)
        ensures
            r@ == self.message_text(),
    {
        match self {
            TunnelError::NotFound(id) => concat("tunnel not found: ", format_id(*id).as_str()),
            TunnelError::AlreadyRunning(id) => concat(
                "tunnel already running: ",
                format_id(*id).as_str(),
            ),
            TunnelError::InvalidSpec(what) => concat("invalid tunnel spec: ", what.as_str()),
            TunnelError::Driver(what) => concat("driver error: ", what.as_str()),
            TunnelError::Serde(what) => concat("(de)serialization error: ", what.as_str()),
        }
    }
}

} // verus!
