//! Ephemeral, in-process secret store.

use std::collections::HashMap;

use vstd::prelude::*;

use crate::credentials::backend::CredentialStore;
use crate::credentials::error::CredentialError;
use crate::credentials::secret::Secret;
use crate::ids::Id;

verus! {

/// Ephemeral, in-process secret store.
///
/// Secrets live only in memory and are dropped (and wiped) with the process.
/// This is the **secure-by-default** backend: nothing is ever written to disk.
#[derive(Default)]
pub struct MemoryCredentialStore {
    inner: HashMap<Id, Secret>,
}

impl View for MemoryCredentialStore {
    type V = Map<Id, Seq<char>>;

    closed spec fn view(&self) -> Map<Id, Seq<char>> {
        self.inner@.map_values(|s: Secret| s@)
    }
}

/// The secret stored under an id.
pub open spec fn stored(secrets: Map<Id, Seq<char>>, id: Id) -> Option<Seq<char>> {
    if secrets.contains_key(id) {
        Some(secrets[id])
    } else {
        None
    }
}

impl MemoryCredentialStore {
    pub fn new() -> (r: MemoryCredentialStore)
        ensures
            r@ == Map::<Id, Seq<char>>::empty(),
    {
        broadcast use vstd::std_specs::hash::group_hash_axioms;

        let r = MemoryCredentialStore { inner: HashMap::new() };
        assert(r@ =~= Map::<Id, Seq<char>>::empty());
        r
    }
}

impl CredentialStore for MemoryCredentialStore {
    fn set_secret(&mut self, id: Id, secret: &Secret) -> (r: Result<(), CredentialError>)
        ensures
            r is Ok,
            final(self)@ == old(self)@.insert(id, secret@),
    {
        broadcast use vstd::std_specs::hash::group_hash_axioms;

        self.inner.insert(id, secret.clone());
        assert(self@ =~= old(self)@.insert(id, secret@));
        Ok(())
    }

    fn get_secret(&self, id: Id) -> (r: Result<Option<Secret>, CredentialError>)
        ensures
            match r {
                Ok(Some(secret)) => stored(self@, id) == Some(secret@),
                Ok(None) => stored(self@, id) is None,
                Err(_) => false,
            },
    {
        broadcast use vstd::std_specs::hash::group_hash_axioms;

        match self.inner.get(&id) {
            Some(secret) => Ok(Some(secret.clone())),
            None => Ok(None),
        }
    }

    fn delete_secret(&mut self, id: Id) -> (r: Result<(), CredentialError>)
        ensures
            r is Ok,
            final(self)@ == old(self)@.remove(id),
    {
        broadcast use vstd::std_specs::hash::group_hash_axioms;

        let _removed: Option<Secret> = self.inner.remove(&id);
        assert(self@ =~= old(self)@.remove(id));
        Ok(())
    }
}

/// What is stored is what is read back, until it is replaced or removed; the
/// secrets of other ids are not touched.
pub proof fn law_stored_secret_is_read_back(
    secrets: Map<Id, Seq<char>>,
    id: Id,
    secret: Seq<char>,
    other: Id,
)
    requires
        other != id,
    ensures
        stored(secrets.insert(id, secret), id) == Some(secret),
        stored(secrets.remove(id), id) is None,
        stored(secrets.insert(id, secret), other) == stored(secrets, other),
        stored(secrets.remove(id), other) == stored(secrets, other),
{
}

} // verus!
