//! What a secret store offers.

use vstd::prelude::*;

use crate::credentials::error::CredentialError;
use crate::credentials::secret::Secret;
use crate::ids::Id;

verus! {

/// Abstraction over a secret store.
///
/// Implementations: an ephemeral in-memory store (default) and the OS keyring.
/// A Windows Credential Manager backend will implement this same trait without
/// changing any caller.
pub trait CredentialStore {
    /// Store (or replace) the secret for `id`.
    fn set_secret(&mut self, id: Id, secret: &Secret) -> (r: Result<(), CredentialError>);

    /// Retrieve the secret for `id`, or `None` if absent.
    fn get_secret(&self, id: Id) -> (r: Result<Option<Secret>, CredentialError>);

    /// Remove the secret for `id` (no error if absent).
    fn delete_secret(&mut self, id: Id) -> (r: Result<(), CredentialError>);
}

} // verus!
