//! Tunnel definitions and the manager that keeps track of them.
//!
//! Three kinds of forwarding are modelled: local (`-L`), remote (`-R`) and
//! dynamic SOCKS (`-D`). The [`TunnelManager`] keeps the definitions with their
//! status, and establishes and tears down forwardings through a
//! [`TunnelDriver`].

use std::collections::HashMap;

use vstd::prelude::*;
use vstd::string::*;

use crate::ids;
use crate::ids::{new_id, Id};
use crate::table;
use crate::table::keys_of;
use crate::tunnels::error::TunnelError;

verus! {

/// Direction / type of a forwarding.
#[derive(Debug, Clone, Copy, PartialEq, Eq, Structural)]
pub enum TunnelKind {
    /// Local listener forwarded to a remote host:port (`ssh -L`).
    Local,
    /// Remote listener forwarded back to a local host:port (`ssh -R`).
    Remote,
    /// Local SOCKS proxy (`ssh -D`).
    Dynamic,
}

/// A tunnel definition (no secrets).
#[derive(Debug)]
pub struct TunnelSpec {
    pub id: Id,
    pub name: String,
    pub kind: TunnelKind,
    /// SSH profile that provides the transport.
    pub ssh_profile_id: Id,
    /// Address to bind locally (Local/Dynamic) or remotely (Remote).
    pub bind_address: String,
    pub bind_port: u16,
    /// Target host (unused for Dynamic).
    pub target_host: Option<String>,
    /// Target port (unused for Dynamic).
    pub target_port: Option<u16>,
    pub autostart: bool,
}

impl Clone for TunnelSpec {
    fn clone(&self) -> (r: Self)
        ensures
            r == *self,
    {
        TunnelSpec {
            id: self.id,
            name: self.name.clone(),
            kind: self.kind,
            ssh_profile_id: self.ssh_profile_id,
            bind_address: self.bind_address.clone(),
            bind_port: self.bind_port,
            target_host: self.target_host.clone(),
            target_port: self.target_port,
            autostart: self.autostart,
        }
    }
}

impl TunnelSpec {
    /// Helper to build a local (`-L`) forward.
    pub fn new_local(
        name: &str,
        ssh_profile_id: Id,
        bind_port: u16,
        target_host: &str,
        target_port: u16,
    ) -> (r: TunnelSpec)
        ensures
            ids::is_random_id(r.id),
            r.name@ == name@,
            r.kind == TunnelKind::Local,
            r.ssh_profile_id == ssh_profile_id,
            r.bind_address@ == "127.0.0.1"@,
            r.bind_port == bind_port,
            r.target_host matches Some(h) && h@ == target_host@,
            r.target_port == Some(target_port),
            !r.autostart,
    {
        TunnelSpec {
            id: new_id(),
            name: name.to_string(),
            kind: TunnelKind::Local,
            ssh_profile_id,
            bind_address: "127.0.0.1".to_string(),
            bind_port,
            target_host: Some(target_host.to_string()),
            target_port: Some(target_port),
            autostart: false,
        }
    }

    /// Helper to build a dynamic (`-D`) forward.
    pub fn new_dynamic(name: &str, ssh_profile_id: Id, bind_address: &str, bind_port: u16) -> (r:
        TunnelSpec)
        ensures
            ids::is_random_id(r.id),
            r.name@ == name@,
            r.kind == TunnelKind::Dynamic,
            r.ssh_profile_id == ssh_profile_id,
            r.bind_address@ == bind_address@,
            r.bind_port == bind_port,
            r.target_host is None,
            r.target_port is None,
            !r.autostart,
    {
        TunnelSpec {
            id: new_id(),
            name: name.to_string(),
            kind: TunnelKind::Dynamic,
            ssh_profile_id,
            bind_address: bind_address.to_string(),
            bind_port,
            target_host: None,
            target_port: None,
            autostart: false,
        }
    }

    /// Helper to build a remote (`-R`) forward: the server listens on
    /// `bind_address:bind_port`, connections end at the local
    /// `target_host:target_port`.
    pub fn new_remote(
        name: &str,
        ssh_profile_id: Id,
        bind_address: &str,
        bind_port: u16,
        target_host: &str,
        target_port: u16,
    ) -> (r: TunnelSpec)
        ensures
            ids::is_random_id(r.id),
            r.name@ == name@,
            r.kind == TunnelKind::Remote,
            r.ssh_profile_id == ssh_profile_id,
            r.bind_address@ == bind_address@,
            r.bind_port == bind_port,
            r.target_host matches Some(h) && h@ == target_host@,
            r.target_port == Some(target_port),
            !r.autostart,
    {
        TunnelSpec {
            id: new_id(),
            name: name.to_string(),
            kind: TunnelKind::Remote,
            ssh_profile_id,
            bind_address: bind_address.to_string(),
            bind_port,
            target_host: Some(target_host.to_string()),
            target_port: Some(target_port),
            autostart: false,
        }
    }

    /// Whether the definition names a target host and a target port.
    pub open spec fn has_target(self) -> bool {
        self.target_host is Some && self.target_port is Some
    }

    /// The address and port to listen on.
    pub fn bind_endpoint(&self) -> (r: (String, u16))
        ensures
            r == (self.bind_address, self.bind_port),
    {
        (self.bind_address.clone(), self.bind_port)
    }

    /// Where a local forward sends its connections.
    pub fn local_forward_target(&self) -> (r: Result<(String, u16), TunnelError>)
        ensures
            self.has_target() ==> r == Ok::<(String, u16), TunnelError>(
                (self.target_host->0, self.target_port->0),
            ),
            !self.has_target() ==> (r matches Err(TunnelError::InvalidSpec(what)) && what@
                == "the forward needs a target host and a target port"@),
    {
        match (&self.target_host, self.target_port) {
            (Some(host), Some(port)) => Ok((host.clone(), port)),
            _ => Err(
                TunnelError::InvalidSpec(
                    "the forward needs a target host and a target port".to_string(),
                ),
            ),
        }
    }

    /// Where the server listens for a remote forward, and the local target of
    /// its connections.
    pub fn remote_forward_endpoints(&self) -> (r: Result<
        ((String, u16), (String, u16)),
        TunnelError,
    >)
        ensures
            self.has_target() ==> r == Ok::<((String, u16), (String, u16)), TunnelError>(
                (
                    (self.bind_address, self.bind_port),
                    (self.target_host->0, self.target_port->0),
                ),
            ),
            !self.has_target() ==> (r matches Err(TunnelError::InvalidSpec(what)) && what@
                == "the forward needs a target host and a target port"@),
    {
        match self.local_forward_target() {
            Ok(target) => Ok((self.bind_endpoint(), target)),
            Err(e) => Err(e),
        }
    }
}

/// Runtime status of a tunnel.
#[derive(Debug, Clone, Copy, PartialEq, Eq, Structural)]
pub enum TunnelStatus {
    Stopped,
    Running,
    Failed,
}

/// Backend that actually establishes and tears down forwardings.
pub trait TunnelDriver {
    fn start(&self, spec: &TunnelSpec) -> (r: Result<(), TunnelError>);

    fn stop(&self, id: Id) -> (r: Result<(), TunnelError>);
}

/// Why a tunnel cannot be started, before its driver is asked.
pub open spec fn start_refusal(
    tunnels: Map<Id, (TunnelSpec, TunnelStatus)>,
    id: Id,
) -> Option<TunnelError> {
    if !tunnels.contains_key(id) {
        Some(TunnelError::NotFound(id))
    } else if tunnels[id].1 == TunnelStatus::Running {
        Some(TunnelError::AlreadyRunning(id))
    } else {
        None
    }
}

/// The tunnels after the one with this id has got a new status.
pub open spec fn with_status(
    tunnels: Map<Id, (TunnelSpec, TunnelStatus)>,
    id: Id,
    status: TunnelStatus,
) -> Map<Id, (TunnelSpec, TunnelStatus)> {
    tunnels.insert(id, (tunnels[id].0, status))
}

/// The status of a tunnel that its driver was asked to start.
pub open spec fn status_after_start(outcome: Result<(), TunnelError>) -> TunnelStatus {
    if outcome is Ok {
        TunnelStatus::Running
    } else {
        TunnelStatus::Failed
    }
}

/// The tunnels that a list of definitions makes, all of them stopped. Of two
/// definitions with one id the later one stays.
pub open spec fn stopped_tunnels(specs: Seq<TunnelSpec>) -> Map<Id, (TunnelSpec, TunnelStatus)>
    decreases specs.len(),
{
    if specs.len() == 0 {
        Map::empty()
    } else {
        stopped_tunnels(specs.drop_last()).insert(
            specs.last().id,
            (specs.last(), TunnelStatus::Stopped),
        )
    }
}

/// Whether every tunnel stands under the id of its definition.
pub open spec fn keyed_by_id(tunnels: Map<Id, (TunnelSpec, TunnelStatus)>) -> bool {
    forall|id: Id| #[trigger] tunnels.contains_key(id) ==> tunnels[id].0.id == id
}

/// Tracks tunnel definitions and their status, driving them via a
/// [`TunnelDriver`].
pub struct TunnelManager<D: TunnelDriver> {
    driver: D,
    tunnels: HashMap<Id, (TunnelSpec, TunnelStatus)>,
}

impl<D: TunnelDriver> View for TunnelManager<D> {
    type V = Map<Id, (TunnelSpec, TunnelStatus)>;

    closed spec fn view(&self) -> Map<Id, (TunnelSpec, TunnelStatus)> {
        self.tunnels@
    }
}

impl<D: TunnelDriver> TunnelManager<D> {
    /// The driver that starts and stops the tunnels.
    pub closed spec fn driver_of(self) -> D {
        self.driver
    }

    /// Every tunnel stands under the id of its definition.
    pub open spec fn wf(self) -> bool {
        keyed_by_id(self@)
    }

    pub fn new(driver: D) -> (r: Self)
        ensures
            r.wf(),
            r@ == Map::<Id, (TunnelSpec, TunnelStatus)>::empty(),
            r.driver_of() == driver,
    {
        broadcast use vstd::std_specs::hash::group_hash_axioms;

        TunnelManager { driver, tunnels: HashMap::new() }
    }

    /// Register a definition (initially stopped). Returns its id.
    pub fn add(&mut self, spec: TunnelSpec) -> (id: Id)
        requires
            old(self).wf(),
        ensures
            final(self).wf(),
            id == spec.id,
            final(self)@ == old(self)@.insert(spec.id, (spec, TunnelStatus::Stopped)),
            final(self).driver_of() == old(self).driver_of(),
    {
        broadcast use vstd::std_specs::hash::group_hash_axioms;

        let id: Id = spec.id;
        self.tunnels.insert(id, (spec, TunnelStatus::Stopped));
        id
    }

    /// The definition to hand to the driver when a tunnel is to be started, or
    /// why it cannot be.
    pub fn startable(&self, id: Id) -> (r: Result<TunnelSpec, TunnelError>)
        ensures
            match start_refusal(self@, id) {
                Some(e) => r == Err::<TunnelSpec, TunnelError>(e),
                None => r == Ok::<TunnelSpec, TunnelError>(self@[id].0),
            },
    {
        broadcast use vstd::std_specs::hash::group_hash_axioms;

        match self.tunnels.get(&id) {
            None => Err(TunnelError::NotFound(id)),
            Some(entry) => {
                if entry.1 == TunnelStatus::Running {
                    Err(TunnelError::AlreadyRunning(id))
                } else {
                    Ok(entry.0.clone())
                }
            },
        }
    }

    /// Gives a tunnel a new status. Without a tunnel of that id nothing changes.
    fn set_status(&mut self, id: Id, status: TunnelStatus)
        requires
            old(self).wf(),
        ensures
            final(self).wf(),
            final(self)@ == (if old(self)@.contains_key(id) {
                with_status(old(self)@, id, status)
            } else {
                old(self)@
            }),
            final(self).driver_of() == old(self).driver_of(),
    {
        broadcast use vstd::std_specs::hash::group_hash_axioms;

        if let Some(entry) = self.tunnels.remove(&id) {
            self.tunnels.insert(id, (entry.0, status));
        }
        assert(self@ =~= (if old(self)@.contains_key(id) {
            with_status(old(self)@, id, status)
        } else {
            old(self)@
        }));
    }

    /// Starts a tunnel through the driver.
    pub fn start(&mut self, id: Id) -> (r: Result<(), TunnelError>)
        requires
            old(self).wf(),
        ensures
            final(self).wf(),
            final(self).driver_of() == old(self).driver_of(),
            match start_refusal(old(self)@, id) {
                Some(e) => r == Err::<(), TunnelError>(e) && final(self)@ == old(self)@,
                None => {
                    &&& call_ensures(D::start, (&old(self).driver_of(), &old(self)@[id].0), r)
                    &&& final(self)@ == with_status(old(self)@, id, status_after_start(r))
                },
            },
            !old(self)@.contains_key(id) ==> r == Err::<(), TunnelError>(TunnelError::NotFound(id))
                && final(self)@ == old(self)@,
            old(self)@.contains_key(id) && old(self)@[id].1 == TunnelStatus::Running ==> r == Err::<
                (),
                TunnelError,
            >(TunnelError::AlreadyRunning(id)) && final(self)@ == old(self)@,
            old(self)@.contains_key(id) && old(self)@[id].1 != TunnelStatus::Running ==> {
                &&& call_ensures(D::start, (&old(self).driver_of(), &old(self)@[id].0), r)
                &&& final(self)@ == old(self)@.insert(
                    id,
                    (
                        old(self)@[id].0,
                        if r is Ok {
                            TunnelStatus::Running
                        } else {
                            TunnelStatus::Failed
                        },
                    ),
                )
            },
    {
        let spec = match self.startable(id) {
            Err(e) => {
                return Err(e);
            },
            Ok(spec) => spec,
        };
        let outcome = self.driver.start(&spec);
        if outcome.is_ok() {
            self.set_status(id, TunnelStatus::Running);
        } else {
            self.set_status(id, TunnelStatus::Failed);
        }
        outcome
    }

    /// Stops a tunnel through the driver. Where the driver fails, the status
    /// stays as it was.
    pub fn stop(&mut self, id: Id) -> (r: Result<(), TunnelError>)
        requires
            old(self).wf(),
        ensures
            final(self).wf(),
            final(self).driver_of() == old(self).driver_of(),
            if !old(self)@.contains_key(id) {
                r == Err::<(), TunnelError>(TunnelError::NotFound(id)) && final(self)@ == old(
                    self,
                )@
            } else {
                &&& call_ensures(D::stop, (&old(self).driver_of(), id), r)
                &&& final(self)@ == (if r is Ok {
                    with_status(old(self)@, id, TunnelStatus::Stopped)
                } else {
                    old(self)@
                })
            },
            old(self)@.contains_key(id) && r is Ok ==> final(self)@ == old(self)@.insert(
                id,
                (old(self)@[id].0, TunnelStatus::Stopped),
            ),
    {
        broadcast use vstd::std_specs::hash::group_hash_axioms;

        if !self.tunnels.contains_key(&id) {
            return Err(TunnelError::NotFound(id));
        }
        let outcome = self.driver.stop(id);
        if outcome.is_ok() {
            self.set_status(id, TunnelStatus::Stopped);
        }
        outcome
    }

    /// The status of a tunnel.
    pub fn status(&self, id: Id) -> (r: Option<TunnelStatus>)
        ensures
            r == (if self@.contains_key(id) {
                Some(self@[id].1)
            } else {
                None
            }),
    {
        broadcast use vstd::std_specs::hash::group_hash_axioms;

        match self.tunnels.get(&id) {
            Some(entry) => Some(entry.1),
            None => None,
        }
    }

    /// All tunnels with their status, in no particular order.
    pub fn list(&self) -> (r: Vec<(TunnelSpec, TunnelStatus)>)
        ensures
            table::lists_values(r@, self@),
    {
        broadcast use vstd::std_specs::hash::group_hash_axioms;

        let ids: Vec<Id> = keys_of(&self.tunnels);
        let mut r: Vec<(TunnelSpec, TunnelStatus)> = Vec::new();
        for k in 0..ids.len()
            invariant
                table::lists_keys(ids@, self@),
                r@ == table::values_at(ids@, self@).take(k as int),
        {
            broadcast use vstd::std_specs::hash::group_hash_axioms;

            assert(ids@.to_set().contains(ids@[k as int]));
            if let Some(entry) = self.tunnels.get(&ids[k]) {
                r.push((entry.0.clone(), entry.1));
            }
        }
        assert(r@ =~= table::values_at(ids@, self@));
        r
    }

    /// Start every tunnel marked `autostart`. Returns the ids that failed to
    /// start; one that was running already is among them.
    pub fn start_autostart(&mut self) -> (failed: Vec<Id>)
        requires
            old(self).wf(),
        ensures
            final(self).wf(),
            final(self).driver_of() == old(self).driver_of(),
            final(self)@.dom() == old(self)@.dom(),
            failed@.no_duplicates(),
            forall|id: Id| #[trigger] failed@.contains(id) ==> old(self)@.contains_key(id) && old(
                self,
            )@[id].0.autostart,
            forall|id: Id| #[trigger]
                old(self)@.contains_key(id) ==> autostarted(
                    old(self).driver_of(),
                    old(self)@[id],
                    final(self)@[id],
                    failed@.contains(id),
                ),
            forall|id: Id|
                old(self)@.contains_key(id) && !(#[trigger] old(self)@[id]).0.autostart ==> final(self)@[id] == old(self)@[id] && !failed@.contains(id),
            forall|id: Id|
                old(self)@.contains_key(id) && (#[trigger] old(self)@[id]).0.autostart && old(
                    self,
                )@[id].1 == TunnelStatus::Running ==> final(self)@[id] == old(self)@[id]
                    && failed@.contains(id),
            forall|id: Id|
                old(self)@.contains_key(id) && (#[trigger] old(self)@[id]).0.autostart && old(
                    self,
                )@[id].1 != TunnelStatus::Running ==> final(self)@[id].0 == old(self)@[id].0
                    && final(self)@[id].1 == (if failed@.contains(id) {
                    TunnelStatus::Failed
                } else {
                    TunnelStatus::Running
                }),
    {
        broadcast use vstd::std_specs::hash::group_hash_axioms;

        let ids: Vec<Id> = keys_of(&self.tunnels);
        let ghost before = self@;
        let mut failed: Vec<Id> = Vec::new();
        for k in 0..ids.len()
            invariant
                self.wf(),
                self.driver_of() == old(self).driver_of(),
                before == old(self)@,
                keyed_by_id(before),
                table::lists_keys(ids@, before),
                self@.dom() == before.dom(),
                failed@.no_duplicates(),
                forall|i: int|
                    0 <= i < failed@.len() ==> ids@.take(k as int).contains(#[trigger] failed@[i])
                        && before[failed@[i]].0.autostart,
                forall|i: int|
                    0 <= i < k ==> autostarted(
                        self.driver_of(),
                        before[#[trigger] ids@[i]],
                        self@[ids@[i]],
                        failed@.contains(ids@[i]),
                    ),
                forall|i: int| k <= i < ids@.len() ==> self@[#[trigger] ids@[i]] == before[ids@[i]],
        {
            broadcast use vstd::std_specs::hash::group_hash_axioms;

            let id: Id = ids[k];
            assert(ids@.to_set().contains(id));
            assert(self@.dom().contains(id));
            let autostart: bool = match self.tunnels.get(&id) {
                Some(entry) => entry.0.autostart,
                None => false,
            };
            let ghost failed_before = failed@;
            let ghost done = self@;
            assert(ids@.take(k + 1) =~= ids@.take(k as int).push(id));
            assert(!ids@.take(k as int).contains(id));
            assert(!failed_before.contains(id));
            if autostart {
                if self.start(id).is_err() {
                    failed.push(id);
                }
            }
            proof {
                assert(self@.dom() =~= before.dom());
                assert forall|i: int| 0 <= i < failed@.len() implies ids@.take(k + 1).contains(
                    #[trigger] failed@[i],
                ) && before[failed@[i]].0.autostart by {
                    if i < failed_before.len() {
                        assert(failed@[i] == failed_before[i]);
                        assert(ids@.take(k as int).contains(failed_before[i]));
                        let j = choose|j: int|
                            0 <= j < k && ids@.take(k as int)[j] == failed_before[i];
                        assert(ids@.take(k + 1)[j] == failed_before[i]);
                    } else {
                        assert(ids@.take(k + 1)[k as int] == id);
                    }
                }
                assert forall|other: Id| other != id implies failed@.contains(other)
                    == failed_before.contains(other) by {
                    if failed_before.contains(other) {
                        let j = choose|j: int|
                            0 <= j < failed_before.len() && failed_before[j] == other;
                        assert(failed@[j] == other);
                    }
                }
                assert(failed@.len() > failed_before.len() ==> failed@[failed_before.len() as int]
                    == id);
                assert forall|i: int| 0 <= i < k + 1 implies autostarted(
                    self.driver_of(),
                    before[#[trigger] ids@[i]],
                    self@[ids@[i]],
                    failed@.contains(ids@[i]),
                ) by {
                    if i < k {
                        assert(ids@[i] != id);
                        assert(self@[ids@[i]] == done[ids@[i]]);
                    }
                }
            }
        }
        proof {
            assert forall|id: Id| #[trigger] before.contains_key(id) implies autostarted(
                self.driver_of(),
                before[id],
                self@[id],
                failed@.contains(id),
            ) by {
                assert(ids@.to_set().contains(id));
                let i = choose|i: int| 0 <= i < ids@.len() && ids@[i] == id;
                assert(ids@[i] == id);
            }
            assert(ids@.take(ids@.len() as int) =~= ids@);
            assert forall|id: Id| #[trigger] failed@.contains(id) implies before.contains_key(id)
                && before[id].0.autostart by {
                let i = choose|i: int| 0 <= i < failed@.len() && failed@[i] == id;
                assert(ids@.contains(failed@[i]));
                assert(ids@.to_set().contains(id));
            }
        }
        failed
    }

    /// All definitions, in no particular order.
    pub fn export_specs(&self) -> (r: Vec<TunnelSpec>)
        ensures
            table::lists_values(r@, specs_of(self@)),
    {
        broadcast use vstd::std_specs::hash::group_hash_axioms;

        let ids: Vec<Id> = keys_of(&self.tunnels);
        let mut r: Vec<TunnelSpec> = Vec::new();
        for k in 0..ids.len()
            invariant
                table::lists_keys(ids@, self@),
                r@ == table::values_at(ids@, specs_of(self@)).take(k as int),
        {
            broadcast use vstd::std_specs::hash::group_hash_axioms;

            assert(ids@.to_set().contains(ids@[k as int]));
            if let Some(entry) = self.tunnels.get(&ids[k]) {
                r.push(entry.0.clone());
            }
        }
        assert(r@ =~= table::values_at(ids@, specs_of(self@)));
        assert(specs_of(self@).dom() =~= self@.dom());
        assert(table::lists_keys(ids@, specs_of(self@)));
        r
    }

    /// Takes over definitions in place of the current set (all stopped).
    pub fn import_specs(&mut self, specs: Vec<TunnelSpec>)
        ensures
            final(self).wf(),
            final(self)@ == stopped_tunnels(specs@),
            final(self).driver_of() == old(self).driver_of(),
    {
        broadcast use vstd::std_specs::hash::group_hash_axioms;

        let mut tunnels: HashMap<Id, (TunnelSpec, TunnelStatus)> = HashMap::new();
        for k in 0..specs.len()
            invariant
                tunnels@ == stopped_tunnels(specs@.take(k as int)),
                keyed_by_id(tunnels@),
        {
            broadcast use vstd::std_specs::hash::group_hash_axioms;

            assert(specs@.take(k + 1).drop_last() =~= specs@.take(k as int));
            tunnels.insert(specs[k].id, (specs[k].clone(), TunnelStatus::Stopped));
        }
        assert(specs@.take(specs@.len() as int) =~= specs@);
        self.tunnels = tunnels;
    }
}

/// What starting the autostart tunnels makes of one tunnel: `was` before, `is`
/// after, and whether its id is reported as failed.
pub open spec fn autostarted<D: TunnelDriver>(
    driver: D,
    was: (TunnelSpec, TunnelStatus),
    is: (TunnelSpec, TunnelStatus),
    reported: bool,
) -> bool {
    if !was.0.autostart {
        is == was && !reported
    } else if was.1 == TunnelStatus::Running {
        is == was && reported
    } else {
        exists|outcome: Result<(), TunnelError>|
            {
                &&& #[trigger] call_ensures(D::start, (&driver, &was.0), outcome)
                &&& is == (was.0, status_after_start(outcome))
                &&& reported == (outcome is Err)
            }
    }
}

/// The definitions of the tunnels.
pub open spec fn specs_of(tunnels: Map<Id, (TunnelSpec, TunnelStatus)>) -> Map<Id, TunnelSpec> {
    tunnels.map_values(|entry: (TunnelSpec, TunnelStatus)| entry.0)
}

/// A driver that starts nothing and always succeeds.
#[derive(Default)]
pub struct MockTunnelDriver;

impl TunnelDriver for MockTunnelDriver {
    fn start(&self, spec: &TunnelSpec) -> (r: Result<(), TunnelError>)
        ensures
            r is Ok,
    {
        Ok(())
    }

    fn stop(&self, id: Id) -> (r: Result<(), TunnelError>)
        ensures
            r is Ok,
    {
        Ok(())
    }
}

/// A tunnel that was started is not started again before it has been stopped:
/// a start is refused while it runs, and is in order once it is stopped.
pub proof fn law_running_tunnel_is_not_started_again(
    tunnels: Map<Id, (TunnelSpec, TunnelStatus)>,
    id: Id,
)
    requires
        tunnels.contains_key(id),
    ensures
        start_refusal(with_status(tunnels, id, status_after_start(Ok(()))), id) == Some(
            TunnelError::AlreadyRunning(id),
        ),
        start_refusal(with_status(tunnels, id, TunnelStatus::Stopped), id) is None,
{
}

/// A new status of one tunnel leaves every other tunnel, and its own
/// definition, as they were.
pub proof fn law_tunnels_do_not_affect_each_other(
    tunnels: Map<Id, (TunnelSpec, TunnelStatus)>,
    id: Id,
    status: TunnelStatus,
    other: Id,
)
    requires
        tunnels.contains_key(id),
        tunnels.contains_key(other),
        other != id,
    ensures
        with_status(tunnels, id, status)[other] == tunnels[other],
        with_status(tunnels, id, status)[id].0 == tunnels[id].0,
        with_status(tunnels, id, status).dom() == tunnels.dom(),
{
    assert(with_status(tunnels, id, status).dom() =~= tunnels.dom());
}

/// The tunnels with every status set to stopped.
pub open spec fn all_stopped(tunnels: Map<Id, (TunnelSpec, TunnelStatus)>) -> Map<
    Id,
    (TunnelSpec, TunnelStatus),
> {
    tunnels.map_values(|entry: (TunnelSpec, TunnelStatus)| (entry.0, TunnelStatus::Stopped))
}

proof fn lemma_stopped_tunnels_of_listed(
    specs: Seq<TunnelSpec>,
    tunnels: Map<Id, (TunnelSpec, TunnelStatus)>,
    ids: Seq<Id>,
    n: int,
)
    requires
        keyed_by_id(tunnels),
        ids.no_duplicates(),
        0 <= n <= ids.len(),
        forall|i: int| 0 <= i < ids.len() ==> tunnels.contains_key(#[trigger] ids[i]),
        specs == table::values_at(ids, specs_of(tunnels)),
    ensures
        stopped_tunnels(specs.take(n)).dom() == ids.take(n).to_set(),
        forall|i: int|
            0 <= i < n ==> stopped_tunnels(specs.take(n))[#[trigger] ids[i]] == all_stopped(
                tunnels,
            )[ids[i]],
    decreases n,
{
    let m = stopped_tunnels(specs.take(n));
    if n == 0 {
        assert(m.dom() =~= ids.take(n).to_set());
    } else {
        lemma_stopped_tunnels_of_listed(specs, tunnels, ids, n - 1);
        assert(specs.take(n).drop_last() =~= specs.take(n - 1));
        assert(specs.take(n).last() == tunnels[ids[n - 1]].0);
        assert(tunnels.contains_key(ids[n - 1]));
        assert(ids.take(n) =~= ids.take(n - 1).push(ids[n - 1]));
        let shorter = ids.take(n - 1);
        let longer = ids.take(n);
        assert(m.dom() =~= longer.to_set()) by {
            assert forall|id: Id| m.dom().contains(id) <==> longer.to_set().contains(id) by {
                if shorter.contains(id) {
                    let j = choose|j: int| 0 <= j < shorter.len() && shorter[j] == id;
                    assert(longer[j] == id);
                }
                assert(longer[n - 1] == ids[n - 1]);
                if longer.contains(id) && id != ids[n - 1] {
                    let j = choose|j: int| 0 <= j < longer.len() && longer[j] == id;
                    assert(shorter[j] == id);
                }
            }
        }
    }
}

/// Importing what was exported gives back the same tunnels, all of them
/// stopped, in whatever order the definitions were exported.
pub proof fn law_import_of_export(
    tunnels: Map<Id, (TunnelSpec, TunnelStatus)>,
    exported: Seq<TunnelSpec>,
)
    requires
        keyed_by_id(tunnels),
        table::lists_values(exported, specs_of(tunnels)),
    ensures
        stopped_tunnels(exported) == all_stopped(tunnels),
{
    let specs = specs_of(tunnels);
    let ids = choose|ids: Seq<Id>|
        #[trigger] table::lists_keys(ids, specs) && exported == table::values_at(ids, specs);
    assert forall|i: int| 0 <= i < ids.len() implies tunnels.contains_key(#[trigger] ids[i]) by {
        assert(ids.to_set().contains(ids[i]));
    }
    lemma_stopped_tunnels_of_listed(exported, tunnels, ids, ids.len() as int);
    assert(exported.take(ids.len() as int) =~= exported);
    assert(ids.take(ids.len() as int) =~= ids);
    assert forall|id: Id| tunnels.contains_key(id) implies stopped_tunnels(exported)[id]
        == all_stopped(tunnels)[id] by {
        assert(ids.to_set().contains(id));
        let i = choose|i: int| 0 <= i < ids.len() && ids[i] == id;
        assert(ids[i] == id);
    }
    assert(stopped_tunnels(exported) =~= all_stopped(tunnels));
}

/// Each tunnel that is marked `autostart` and does not run is handed to the
/// driver, and is reported exactly where the driver fails.
pub proof fn law_autostart_goes_through_the_driver<D: TunnelDriver>(
    driver: D,
    was: (TunnelSpec, TunnelStatus),
    is: (TunnelSpec, TunnelStatus),
    reported: bool,
)
    requires
        autostarted(driver, was, is, reported),
        was.0.autostart,
        was.1 != TunnelStatus::Running,
    ensures
        exists|outcome: Result<(), TunnelError>|
            {
                &&& #[trigger] call_ensures(D::start, (&driver, &was.0), outcome)
                &&& outcome is Ok ==> !reported && is == (was.0, TunnelStatus::Running)
                &&& outcome is Err ==> reported && is == (was.0, TunnelStatus::Failed)
            },
{
}

/// An imported definition stands under its id and is stopped, where no later one
/// has the same id.
pub proof fn law_imported_definition_is_there(specs: Seq<TunnelSpec>, at: int)
    requires
        0 <= at < specs.len(),
        forall|j: int| at < j < specs.len() ==> (#[trigger] specs[j]).id != specs[at].id,
    ensures
        stopped_tunnels(specs).contains_key(specs[at].id),
        stopped_tunnels(specs)[specs[at].id] == (specs[at], TunnelStatus::Stopped),
    decreases specs.len(),
{
    let fewer = specs.drop_last();
    if at < fewer.len() {
        assert forall|j: int| at < j < fewer.len() implies (#[trigger] fewer[j]).id
            != fewer[at].id by {
            assert(specs[j].id != specs[at].id);
        }
        law_imported_definition_is_there(fewer, at);
        assert(specs[specs.len() - 1].id != specs[at].id);
    }
}

/// An import leaves nothing behind but what was imported.
pub proof fn law_import_replaces_everything(specs: Seq<TunnelSpec>, id: Id)
    requires
        forall|i: int| 0 <= i < specs.len() ==> (#[trigger] specs[i]).id != id,
    ensures
        !stopped_tunnels(specs).contains_key(id),
    decreases specs.len(),
{
    if specs.len() > 0 {
        let fewer = specs.drop_last();
        assert forall|i: int| 0 <= i < fewer.len() implies (#[trigger] fewer[i]).id != id by {
            assert(specs[i].id != id);
        }
        law_import_replaces_everything(fewer, id);
        assert(specs[specs.len() - 1].id != id);
    }
}

/// An export holds the definition of every tunnel and nothing of its status.
pub proof fn law_exported_definitions(tunnels: Map<Id, (TunnelSpec, TunnelStatus)>, id: Id)
    ensures
        specs_of(tunnels).contains_key(id) <==> tunnels.contains_key(id),
        tunnels.contains_key(id) ==> specs_of(tunnels)[id] == tunnels[id].0,
{
}

} // verus!
