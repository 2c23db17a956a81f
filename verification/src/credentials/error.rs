//! What can go wrong with a secret store.

use vstd::prelude::*;
use vstd::string::*;

use crate::text::concat;

verus! {

/// Errors of secret stores.
#[derive(Debug)]
pub enum CredentialError {
    Backend(String),
    Join(String),
}

impl CredentialError {
    /// What [`CredentialError::message`] says.
    pub open spec fn message_text(self) -> Seq<char> {
        match self {
            CredentialError::Backend(what) => "secret store backend error: "@ + what@,
            CredentialError::Join(what) => "background task join error: "@ + what@,
        }
    }

    /// The error in words.
    pub fn message(&self) -> (r: String)
        ensures
            r@ == self.message_text(),
    {
        match self {
            CredentialError::Backend(what) => concat(
                "secret store backend error: ",
                what.as_str(),
            ),
            CredentialError::Join(what) => concat("background task join error: ", what.as_str()),
        }
    }
}

} // verus!
