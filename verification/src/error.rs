//! Errors shared across the core domain.

use vstd::prelude::*;
use vstd::string::*;

use crate::text::concat;

verus! {

/// Errors produced by core models, config, and storage. Failures of the outside
/// world are kept as their description, so that secret-adjacent details never
/// leak through error chains.
#[derive(Debug)]
pub enum CoreError {
    Io(String),
    Serde(String),
    Config(String),
    Store(String),
    NotFound(String),
}

impl CoreError {
    /// What [`CoreError::message`] says.
    pub open spec fn message_text(self) -> Seq<char> {
        match self {
            CoreError::Io(what) => "I/O error: "@ + what@,
            CoreError::Serde(what) => "(de)serialization error: "@ + what@,
            CoreError::Config(what) => "configuration error: "@ + what@,
            CoreError::Store(what) => "storage error: "@ + what@,
            CoreError::NotFound(what) => "entity not found: "@ + what@,
        }
    }

    /// The error in words.
    pub fn message(&self) -> (r: String)
        ensures
            r@ == self.message_text(),
    {
        match self {
            CoreError::Io(what) => concat("I/O error: ", what.as_str()),
            CoreError::Serde(what) => concat("(de)serialization error: ", what.as_str()),
            CoreError::Config(what) => concat("configuration error: ", what.as_str()),
            CoreError::Store(what) => concat("storage error: ", what.as_str()),
            CoreError::NotFound(what) => concat("entity not found: ", what.as_str()),
        }
    }
}

/// What came of reading a file and parsing what it holds.
pub enum ReadOutcome<T> {
    /// The file holds this.
    Parsed(T),
    /// The file holds something that does not parse.
    Malformed(String),
    /// There is no such file.
    Missing,
    /// The file could not be read.
    Failed(String),
}

/// What a file holds, or `default` where there is none.
pub fn read_or_default<T>(outcome: ReadOutcome<T>, default: T) -> (r: Result<T, CoreError>)
    ensures
        r == (match outcome {
            ReadOutcome::Parsed(value) => Ok::<T, CoreError>(value),
            ReadOutcome::Malformed(why) => Err(CoreError::Serde(why)),
            ReadOutcome::Missing => Ok(default),
            ReadOutcome::Failed(why) => Err(CoreError::Io(why)),
        }),
{
    match outcome {
        ReadOutcome::Parsed(value) => Ok(value),
        ReadOutcome::Malformed(why) => Err(CoreError::Serde(why)),
        ReadOutcome::Missing => Ok(default),
        ReadOutcome::Failed(why) => Err(CoreError::Io(why)),
    }
}

} // verus!
