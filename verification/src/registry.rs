//! Registry of active runtime sessions.

use std::collections::HashMap;

use vstd::prelude::*;

use crate::event::AppEvent;
use crate::ids::Id;
use crate::model::session::{RuntimeSession, SessionState};
use crate::table;
use crate::table::keys_of;

verus! {

/// The sessions after the one with this id has got a new state.
pub open spec fn with_state(
    sessions: Map<Id, RuntimeSession>,
    id: Id,
    state: SessionState,
) -> Map<Id, RuntimeSession> {
    if sessions.contains_key(id) {
        sessions.insert(id, RuntimeSession { state, ..sessions[id] })
    } else {
        sessions
    }
}

/// In-memory registry of live sessions.
pub struct SessionRegistry {
    inner: HashMap<Id, RuntimeSession>,
}

impl View for SessionRegistry {
    type V = Map<Id, RuntimeSession>;

    closed spec fn view(&self) -> Map<Id, RuntimeSession> {
        self.inner@
    }
}

impl SessionRegistry {
    pub fn new() -> (r: SessionRegistry)
        ensures
            r@ == Map::<Id, RuntimeSession>::empty(),
    {
        broadcast use vstd::std_specs::hash::group_hash_axioms;

        SessionRegistry { inner: HashMap::new() }
    }

    /// Takes in a session. Returns its id.
    pub fn register(&mut self, session: RuntimeSession) -> (id: Id)
        ensures
            id == session.id,
            final(self)@ == old(self)@.insert(session.id, session),
    {
        broadcast use vstd::std_specs::hash::group_hash_axioms;

        let id: Id = session.id;
        self.inner.insert(id, session);
        id
    }

    /// Gives a session a new state, and returns the event to publish. An unknown
    /// session changes nothing and raises no event.
    pub fn set_state(&mut self, id: Id, state: SessionState) -> (event: Option<AppEvent>)
        ensures
            final(self)@ == with_state(old(self)@, id, state),
            event == (if old(self)@.contains_key(id) {
                Some(AppEvent::SessionStateChanged { session_id: id, state })
            } else {
                None
            }),
    {
        broadcast use vstd::std_specs::hash::group_hash_axioms;

        match self.inner.remove(&id) {
            Some(session) => {
                let RuntimeSession { id: sid, profile_id, title, kind, state: _, created_at } =
                    session;
                let changed = RuntimeSession {
                    id: sid,
                    profile_id,
                    title,
                    kind,
                    state: state.clone(),
                    created_at,
                };
                self.inner.insert(id, changed);
                assert(self@ =~= with_state(old(self)@, id, state));
                Some(AppEvent::SessionStateChanged { session_id: id, state })
            },
            None => {
                assert(self@ =~= old(self)@);
                None
            },
        }
    }

    pub fn get(&self, id: Id) -> (r: Option<RuntimeSession>)
        ensures
            r == (if self@.contains_key(id) {
                Some(self@[id])
            } else {
                None
            }),
    {
        broadcast use vstd::std_specs::hash::group_hash_axioms;

        match self.inner.get(&id) {
            Some(session) => Some(session.clone()),
            None => None,
        }
    }

    /// All sessions, in no particular order.
    pub fn list(&self) -> (r: Vec<RuntimeSession>)
        ensures
            table::lists_values(r@, self@),
    {
        broadcast use vstd::std_specs::hash::group_hash_axioms;

        let ids: Vec<Id> = keys_of(&self.inner);
        let mut r: Vec<RuntimeSession> = Vec::new();
        for k in 0..ids.len()
            invariant
                table::lists_keys(ids@, self@),
                r@ == table::values_at(ids@, self@).take(k as int),
        {
            broadcast use vstd::std_specs::hash::group_hash_axioms;

            assert(ids@.to_set().contains(ids@[k as int]));
            if let Some(session) = self.inner.get(&ids[k]) {
                r.push(session.clone());
            }
        }
        assert(r@ =~= table::values_at(ids@, self@));
        r
    }

    /// Takes a session out, and returns it with the event to publish.
    pub fn remove(&mut self, id: Id) -> (r: Option<(RuntimeSession, AppEvent)>)
        ensures
            final(self)@ == old(self)@.remove(id),
            r == (if old(self)@.contains_key(id) {
                Some((old(self)@[id], AppEvent::SessionClosed { session_id: id }))
            } else {
                None
            }),
    {
        broadcast use vstd::std_specs::hash::group_hash_axioms;

        let removed: Option<RuntimeSession> = self.inner.remove(&id);
        assert(self@ =~= old(self)@.remove(id));
        match removed {
            Some(session) => Some((session, AppEvent::SessionClosed { session_id: id })),
            None => None,
        }
    }
}

/// A new state of a session is what is read back, nothing else of the session
/// changes, and other sessions are not touched.
pub proof fn law_state_change_is_local(
    sessions: Map<Id, RuntimeSession>,
    id: Id,
    state: SessionState,
    other: Id,
)
    requires
        sessions.contains_key(id),
        other != id,
    ensures
        with_state(sessions, id, state)[id] == (RuntimeSession { state, ..sessions[id] }),
        with_state(sessions, id, state).dom() == sessions.dom(),
        sessions.contains_key(other) ==> with_state(sessions, id, state)[other] == sessions[other],
{
    assert(with_state(sessions, id, state).dom() =~= sessions.dom());
}

/// A session that was taken out cannot be brought back by a state change.
pub proof fn law_removed_session_stays_removed(
    sessions: Map<Id, RuntimeSession>,
    id: Id,
    state: SessionState,
)
    ensures
        with_state(sessions.remove(id), id, state) == sessions.remove(id),
{
}

} // verus!
