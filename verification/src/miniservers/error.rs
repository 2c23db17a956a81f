//! What can go wrong with an embedded server.

use vstd::prelude::*;
use vstd::string::*;

use crate::ids;
use crate::ids::{format_id, Id};
use crate::text::concat;

verus! {

/// Errors of embedded servers.
#[derive(Debug)]
pub enum MiniServerError {
    NotFound(Id),
    Start(String),
    Io(String),
}

impl MiniServerError {
    /// What [`MiniServerError::message`] says.
    pub open spec fn message_text(self) -> Seq<char> {
        match self {
            MiniServerError::NotFound(id) => "server not found: "@ + ids::id_text(id),
            MiniServerError::Start(what) => "failed to start server: "@ + what@,
            MiniServerError::Io(what) => "I/O error: "@ + what@,
        }
    }

    /// The error in words.
    pub fn message(&self) -> (r: String)
        ensures
            r@ == self.message_text(),
    {
        match self {
            MiniServerError::NotFound(id) => concat("server not found: ", format_id(*id).as_str()),
            MiniServerError::Start(what) => concat("failed to start server: ", what.as_str()),
            MiniServerError::Io(what) => concat("I/O error: ", what.as_str()),
        }
    }
}

} // verus!
