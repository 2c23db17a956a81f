//! Live connection instances.

use vstd::prelude::*;
use vstd::string::*;

use crate::ids;
use crate::ids::{new_id, Id};
use crate::model::profile::ProtocolKind;

verus! {

/// A point in time of the system clock.
#[verifier::external_type_specification]
#[verifier::external_body]
pub struct ExSystemTime(std::time::SystemTime);

/// Reads the clock with `std::time::SystemTime::now`. Nothing is stated of what
/// it shows.
#[verifier::external_body]
fn now() -> (r: std::time::SystemTime) {
    std::time::SystemTime::now()
}

/// Lifecycle state of a runtime session.
#[derive(Debug, PartialEq, Eq)]
pub enum SessionState {
    Connecting,
    Connected,
    Disconnected,
    Failed(String),
}

impl Clone for SessionState {
    fn clone(&self) -> (r: Self)
        ensures
            r == *self,
    {
        match self {
            SessionState::Connecting => SessionState::Connecting,
            SessionState::Connected => SessionState::Connected,
            SessionState::Disconnected => SessionState::Disconnected,
            SessionState::Failed(why) => SessionState::Failed(why.clone()),
        }
    }
}

/// A live connection instance, distinct from a saved `ConnectionProfile`.
///
/// Runtime-only. The actual transport (SSH channel, PTY, ...) is owned
/// elsewhere; this is the registry-visible metadata.
#[derive(Debug)]
pub struct RuntimeSession {
    pub id: Id,
    pub profile_id: Option<Id>,
    pub title: String,
    pub kind: ProtocolKind,
    pub state: SessionState,
    pub created_at: std::time::SystemTime,
}

impl Clone for RuntimeSession {
    fn clone(&self) -> (r: Self)
        ensures
            r == *self,
    {
        RuntimeSession {
            id: self.id,
            profile_id: self.profile_id,
            title: self.title.clone(),
            kind: self.kind,
            state: self.state.clone(),
            created_at: self.created_at,
        }
    }
}

impl RuntimeSession {
    /// A session that is being connected from now on.
    pub fn new(title: &str, kind: ProtocolKind, profile_id: Option<Id>) -> (r: RuntimeSession)
        ensures
            ids::is_random_id(r.id),
            r.profile_id == profile_id,
            r.title@ == title@,
            r.kind == kind,
            r.state == SessionState::Connecting,
    {
        RuntimeSession {
            id: new_id(),
            profile_id,
            title: title.to_string(),
            kind,
            state: SessionState::Connecting,
            created_at: now(),
        }
    }
}

} // verus!
