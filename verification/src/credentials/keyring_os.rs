//! The OS secret store: which entry holds a secret, and what the outcome of a
//! call means.
//!
//! On Linux the secret service is implemented by KWallet (KDE) and GNOME
//! Keyring. The calls block and reach the outside, so the caller performs them.

use vstd::prelude::*;
use vstd::string::*;

use crate::credentials::error::CredentialError;
use crate::credentials::secret::Secret;
use crate::ids;
use crate::ids::{format_id, Id};

verus! {

/// The service under which all entries stand.
pub const SERVICE: &'static str = "rust-remote-suite";

/// How a call into the secret service failed, with the description of the
/// failure.
#[derive(Debug)]
pub enum KeyringFailure {
    /// The entry could not be addressed.
    Entry(String),
    /// There is no such entry.
    NoEntry(String),
    /// The call failed otherwise.
    Call(String),
    /// The task that made the call did not finish.
    Join(String),
}

/// The error that a failed call amounts to.
pub open spec fn error_of(failure: KeyringFailure) -> CredentialError {
    match failure {
        KeyringFailure::Entry(what) => CredentialError::Backend(what),
        KeyringFailure::NoEntry(what) => CredentialError::Backend(what),
        KeyringFailure::Call(what) => CredentialError::Backend(what),
        KeyringFailure::Join(what) => CredentialError::Join(what),
    }
}

fn to_error(failure: KeyringFailure) -> (r: CredentialError)
    ensures
        r == error_of(failure),
{
    match failure {
        KeyringFailure::Entry(what) => CredentialError::Backend(what),
        KeyringFailure::NoEntry(what) => CredentialError::Backend(what),
        KeyringFailure::Call(what) => CredentialError::Backend(what),
        KeyringFailure::Join(what) => CredentialError::Join(what),
    }
}

/// Secret store backed by the operating system keyring.
#[derive(Debug, Clone, Copy, Default)]
pub struct OsKeyringStore;

impl OsKeyringStore {
    pub fn new() -> (r: OsKeyringStore)
        ensures
            r == OsKeyringStore,
    {
        OsKeyringStore
    }

    /// The service and the account of the entry that holds the secret for `id`.
    pub fn entry_for(id: Id) -> (r: (&'static str, String))
        ensures
            r.0@ == "rust-remote-suite"@,
            r.1@ == ids::id_text(id),
    {
        (SERVICE, format_id(id))
    }

    /// What setting a secret comes to.
    pub fn set_secret(outcome: Result<(), KeyringFailure>) -> (r: Result<(), CredentialError>)
        ensures
            match outcome {
                Ok(_) => r is Ok,
                Err(failure) => r == Err::<(), CredentialError>(error_of(failure)),
            },
    {
        match outcome {
            Ok(_) => Ok(()),
            Err(failure) => Err(to_error(failure)),
        }
    }

    /// What reading a secret comes to: a missing entry is no error.
    pub fn get_secret(outcome: Result<String, KeyringFailure>) -> (r: Result<
        Option<Secret>,
        CredentialError,
    >)
        ensures
            match outcome {
                Ok(password) => r matches Ok(Some(secret)) && secret@ == password@,
                Err(KeyringFailure::NoEntry(_)) => r matches Ok(None),
                Err(failure) => r matches Err(e) && e == error_of(failure),
            },
    {
        match outcome {
            Ok(password) => Ok(Some(Secret::new(password))),
            Err(KeyringFailure::NoEntry(_)) => Ok(None),
            Err(failure) => Err(to_error(failure)),
        }
    }

    /// What removing a secret comes to: a missing entry is no error.
    pub fn delete_secret(outcome: Result<(), KeyringFailure>) -> (r: Result<(), CredentialError>)
        ensures
            match outcome {
                Ok(_) => r is Ok,
                Err(KeyringFailure::NoEntry(_)) => r is Ok,
                Err(failure) => r == Err::<(), CredentialError>(error_of(failure)),
            },
    {
        match outcome {
            Ok(_) => Ok(()),
            Err(KeyringFailure::NoEntry(_)) => Ok(()),
            Err(failure) => Err(to_error(failure)),
        }
    }
}

/// The secrets of two ids never share an entry.
pub proof fn law_entries_are_distinct(a: Id, b: Id)
    requires
        ids::id_text(a) == ids::id_text(b),
    ensures
        a == b,
{
    ids::law_id_text_tells_ids_apart(a, b);
}

/// Every failure of the secret service is an error of the backend, but for a
/// task that did not finish.
pub proof fn law_errors_of_the_secret_service(what: String)
    ensures
        error_of(KeyringFailure::Entry(what)) == CredentialError::Backend(what),
        error_of(KeyringFailure::NoEntry(what)) == CredentialError::Backend(what),
        error_of(KeyringFailure::Call(what)) == CredentialError::Backend(what),
        error_of(KeyringFailure::Join(what)) == CredentialError::Join(what),
{
}

} // verus!
