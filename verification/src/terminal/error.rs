//! What can go wrong on the terminal side.

use vstd::prelude::*;
use vstd::string::*;

use crate::text::concat;

verus! {

/// Errors of highlighting and of the local-shell backend.
#[derive(Debug)]
pub enum TerminalError {
    Pty(String),
    /// A highlight rule whose pattern does not compile; `source` says why.
    BadRegex { name: String, source: String },
    Io(String),
}

impl TerminalError {
    /// What [`TerminalError::message`] says.
    pub open spec fn message_text(self) -> Seq<char> {
        match self {
            TerminalError::Pty(what) => "pty error: "@ + what@,
            TerminalError::BadRegex { name, source } => "invalid regex in highlight rule '"@ + name@
                + "': "@ + source@,
            TerminalError::Io(what) => "I/O error: "@ + what@,
        }
    }

    /// The error in words.
    pub fn message(&self) -> (r: String)
        ensures
            r@ == self.message_text(),
    {
        match self {
            TerminalError::Pty(what) => concat("pty error: ", what.as_str()),
            TerminalError::BadRegex { name, source } => {
                let mut r = concat("invalid regex in highlight rule '", name.as_str());
                r.append("': ");
                r.append(source.as_str());
                r
            },
            TerminalError::Io(what) => concat("I/O error: ", what.as_str()),
        }
    }
}

} // verus!
