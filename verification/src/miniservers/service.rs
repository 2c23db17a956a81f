//! Embedded "mini-server" framework.
//!
//! Each small server (TFTP/FTP/HTTP/NFS/...) is a [`MiniServer`] with a uniform
//! lifecycle and a secret-free [`MiniServerConfig`]. **Safe by default**: configs
//! bind loopback. Launching what a server runs is for the caller; the server is
//! told what came of it.

use std::collections::HashMap;

use vstd::prelude::*;
use vstd::string::*;

use crate::ids;
use crate::ids::{new_id, Id};
use crate::miniservers::error::MiniServerError;
use crate::table;
use crate::table::keys_of;
use crate::text::{concat, text_eq};

verus! {

/// The kind of embedded server.
#[derive(Debug, Clone, Copy, PartialEq, Eq, Structural)]
pub enum MiniServerKind {
    Http,
    Tftp,
    Ftp,
    Ssh,
    Telnet,
    Nfs,
    Vnc,
    Scheduler,
}

/// Common, secret-free configuration for a mini-server.
#[derive(Debug, PartialEq, Eq)]
pub struct MiniServerConfig {
    pub id: Id,
    pub name: String,
    pub kind: MiniServerKind,
    /// Bind address. Defaults to loopback for safety.
    pub bind_address: String,
    pub port: u16,
    /// Served root directory, where applicable.
    pub root_dir: Option<String>,
    /// Read-only mode where applicable (e.g. file servers).
    pub read_only: bool,
    pub autostart: bool,
}

impl Clone for MiniServerConfig {
    fn clone(&self) -> (r: Self)
        ensures
            r == *self,
    {
        MiniServerConfig {
            id: self.id,
            name: self.name.clone(),
            kind: self.kind,
            bind_address: self.bind_address.clone(),
            port: self.port,
            root_dir: self.root_dir.clone(),
            read_only: self.read_only,
            autostart: self.autostart,
        }
    }
}

/// Whether an address is the loopback address of IPv4 or IPv6.
pub open spec fn is_loopback(address: Seq<char>) -> bool {
    address == "127.0.0.1"@ || address == "::1"@
}

/// The warning about a server that is exposed beyond loopback.
pub open spec fn exposure_warning(name: Seq<char>, address: Seq<char>) -> Seq<char> {
    "Server '"@ + name + "' binds "@ + address
        + " (not loopback) and will be reachable from the network. Ensure this is intended and access is controlled."@
}

impl MiniServerConfig {
    /// A safe-by-default HTTP file server config (loopback, read-only).
    pub fn http(name: &str, port: u16, root: &str) -> (r: MiniServerConfig)
        ensures
            ids::is_random_id(r.id),
            r.name@ == name@,
            r.kind == MiniServerKind::Http,
            r.bind_address@ == "127.0.0.1"@,
            is_loopback(r.bind_address@),
            r.port == port,
            r.root_dir matches Some(dir) && dir@ == root@,
            r.read_only,
            !r.autostart,
    {
        MiniServerConfig {
            id: new_id(),
            name: name.to_string(),
            kind: MiniServerKind::Http,
            bind_address: "127.0.0.1".to_string(),
            port,
            root_dir: Some(root.to_string()),
            read_only: true,
            autostart: false,
        }
    }

    /// A human-readable warning when the server is exposed beyond loopback.
    /// The UI should surface this prominently before starting such a server.
    pub fn security_warning(&self) -> (r: Option<String>)
        ensures
            is_loopback(self.bind_address@) ==> r is None,
            !is_loopback(self.bind_address@) ==> (r matches Some(warning) && warning@
                == exposure_warning(self.name@, self.bind_address@)),
    {
        let address = self.bind_address.as_str();
        if !text_eq(address, "127.0.0.1") && !text_eq(address, "::1") {
            let mut warning = concat("Server '", self.name.as_str());
            warning.append("' binds ");
            warning.append(address);
            warning.append(
                " (not loopback) and will be reachable from the network. Ensure this is intended and access is controlled.",
            );
            Some(warning)
        } else {
            None
        }
    }
}

/// Whether a server runs.
#[derive(Debug, Clone, Copy, PartialEq, Eq, Structural)]
pub enum ServerState {
    Stopped,
    Running,
}

/// The state after a start, for what came of launching: a server that runs
/// already keeps running.
pub open spec fn state_after_start(
    state: ServerState,
    launched: Result<(), String>,
) -> ServerState {
    if state == ServerState::Running || launched is Ok {
        ServerState::Running
    } else {
        ServerState::Stopped
    }
}

/// Lifecycle contract for an embedded server.
///
/// A server decides for itself what a start or a stop does to it and with which
/// error it fails.
pub trait MiniServer: Sized {
    /// The configuration.
    spec fn config_of(self) -> MiniServerConfig;

    /// Whether it runs.
    spec fn state_of(self) -> ServerState;

    fn config(&self) -> (r: &MiniServerConfig)
        ensures
            *r == self.config_of(),
    ;

    fn state(&self) -> (r: ServerState)
        ensures
            r == self.state_of(),
    ;

    /// Takes in what came of launching the server.
    fn start(&mut self, launched: Result<(), String>) -> (r: Result<(), MiniServerError>);

    /// Stops the server. What it runs is to be shut down.
    fn stop(&mut self) -> (r: Result<(), MiniServerError>);
}

/// Whether a start went as it does for the servers of this crate, from what is
/// shown of the server before and after: one that runs already was not to be
/// launched, and nothing changes; where launching failed, the start fails with
/// this text.
pub open spec fn started(
    before: (MiniServerConfig, ServerState),
    launched: Result<(), String>,
    after: (MiniServerConfig, ServerState),
    r: Result<(), MiniServerError>,
    error_text: Seq<char>,
) -> bool {
    &&& after == (before.0, state_after_start(before.1, launched))
    &&& match r {
        Ok(_) => after.1 == ServerState::Running,
        Err(e) => {
            &&& after.1 == ServerState::Stopped
            &&& e matches MiniServerError::Start(what)
            &&& what@ == error_text
        },
    }
}

/// Whether a stop went as it does for the servers of this crate: it never fails.
pub open spec fn stopped(
    before: (MiniServerConfig, ServerState),
    after: (MiniServerConfig, ServerState),
    r: Result<(), MiniServerError>,
) -> bool {
    &&& after == (before.0, ServerState::Stopped)
    &&& r is Ok
}

/// Whether every server stands under the id of its configuration.
pub open spec fn keyed_by_config<S: MiniServer>(servers: Map<Id, S>) -> bool {
    forall|id: Id| #[trigger] servers.contains_key(id) ==> servers[id].config_of().id == id
}

/// What is shown of a server.
pub open spec fn summary_of<S: MiniServer>(server: S) -> (MiniServerConfig, ServerState) {
    (server.config_of(), server.state_of())
}

/// What is shown of the servers.
pub open spec fn summaries<S: MiniServer>(servers: Map<Id, S>) -> Map<
    Id,
    (MiniServerConfig, ServerState),
> {
    servers.map_values(|server: S| summary_of(server))
}

/// Registers and controls multiple mini-servers.
pub struct MiniServerManager<S: MiniServer> {
    servers: HashMap<Id, S>,
}

impl<S: MiniServer> View for MiniServerManager<S> {
    type V = Map<Id, S>;

    closed spec fn view(&self) -> Map<Id, S> {
        self.servers@
    }
}

impl<S: MiniServer> MiniServerManager<S> {
    pub fn new() -> (r: MiniServerManager<S>)
        ensures
            keyed_by_config(r@),
            r@ == Map::<Id, S>::empty(),
    {
        broadcast use vstd::std_specs::hash::group_hash_axioms;

        MiniServerManager { servers: HashMap::new() }
    }

    /// Takes in a server. Returns its id.
    pub fn register(&mut self, server: S) -> (id: Id)
        ensures
            id == server.config_of().id,
            final(self)@ == old(self)@.insert(id, server),
            keyed_by_config(old(self)@) ==> keyed_by_config(final(self)@),
    {
        broadcast use vstd::std_specs::hash::group_hash_axioms;

        let id: Id = server.config().id;
        self.servers.insert(id, server);
        id
    }

    /// The server with this id.
    pub fn get(&self, id: Id) -> (r: Result<&S, MiniServerError>)
        ensures
            if self@.contains_key(id) {
                r matches Ok(server) && *server == self@[id]
            } else {
                r matches Err(e) && e == MiniServerError::NotFound(id)
            },
    {
        broadcast use vstd::std_specs::hash::group_hash_axioms;

        match self.servers.get(&id) {
            Some(server) => Ok(server),
            None => Err(MiniServerError::NotFound(id)),
        }
    }

    /// Takes in what came of launching a server, and hands on what the server says of
    /// it.
    pub fn start(&mut self, id: Id, launched: Result<(), String>) -> (r: Result<(), MiniServerError>)
        ensures
            if old(self)@.contains_key(id) {
                &&& exists|server: &mut S|
                    #[trigger] call_ensures(S::start, (server, launched), r) && *server == old(self)@[id]
                        && *final(server) == final(self)@[id]
                &&& final(self)@ == old(self)@.insert(id, final(self)@[id])
                &&& keyed_by_config(old(self)@) && final(self)@[id].config_of().id == id
                    ==> keyed_by_config(final(self)@)
            } else {
                &&& final(self)@ == old(self)@
                &&& r == Err::<(), MiniServerError>(MiniServerError::NotFound(id))
            },
    {
        broadcast use vstd::std_specs::hash::group_hash_axioms;

        match self.servers.remove(&id) {
            Some(server) => {
                let mut changed: S = server;
                let r = changed.start(launched);
                self.servers.insert(id, changed);
                assert(self@ =~= old(self)@.insert(id, changed));
                r
            },
            None => {
                assert(self@ =~= old(self)@);
                Err(MiniServerError::NotFound(id))
            },
        }
    }

    /// Stops a server, and hands on what it says of that.
    pub fn stop(&mut self, id: Id) -> (r: Result<(), MiniServerError>)
        ensures
            if old(self)@.contains_key(id) {
                &&& exists|server: &mut S|
                    #[trigger] call_ensures(S::stop, (server,), r) && *server == old(self)@[id]
                        && *final(server) == final(self)@[id]
                &&& final(self)@ == old(self)@.insert(id, final(self)@[id])
                &&& keyed_by_config(old(self)@) && final(self)@[id].config_of().id == id
                    ==> keyed_by_config(final(self)@)
            } else {
                &&& final(self)@ == old(self)@
                &&& r == Err::<(), MiniServerError>(MiniServerError::NotFound(id))
            },
    {
        broadcast use vstd::std_specs::hash::group_hash_axioms;

        match self.servers.remove(&id) {
            Some(server) => {
                let mut changed: S = server;
                let r = changed.stop();
                self.servers.insert(id, changed);
                assert(self@ =~= old(self)@.insert(id, changed));
                r
            },
            None => {
                assert(self@ =~= old(self)@);
                Err(MiniServerError::NotFound(id))
            },
        }
    }

    /// The configuration and state of all servers, in no particular order.
    pub fn list(&self) -> (r: Vec<(MiniServerConfig, ServerState)>)
        ensures
            table::lists_values(r@, summaries(self@)),
    {
        broadcast use vstd::std_specs::hash::group_hash_axioms;

        let ids: Vec<Id> = keys_of(&self.servers);
        let mut r: Vec<(MiniServerConfig, ServerState)> = Vec::new();
        for k in 0..ids.len()
            invariant
                table::lists_keys(ids@, self@),
                r@ == table::values_at(ids@, summaries(self@)).take(k as int),
        {
            broadcast use vstd::std_specs::hash::group_hash_axioms;

            assert(ids@.to_set().contains(ids@[k as int]));
            if let Some(server) = self.servers.get(&ids[k]) {
                r.push((server.config().clone(), server.state()));
            }
        }
        assert(r@ =~= table::values_at(ids@, summaries(self@)));
        assert(summaries(self@).dom() =~= self@.dom());
        assert(table::lists_keys(ids@, summaries(self@)));
        r
    }
}

/// Starting a server that runs changes nothing, and a stopped server can be
/// started again.
pub proof fn law_start_is_idempotent(state: ServerState, launched: Result<(), String>)
    ensures
        state_after_start(ServerState::Running, launched) == ServerState::Running,
        state_after_start(state, Ok(())) == ServerState::Running,
        state_after_start(state_after_start(state, launched), launched) == state_after_start(
            state,
            launched,
        ),
{
}

/// Only the loopback addresses of IPv4 and IPv6 are taken for loopback, and
/// every other address is warned of.
pub proof fn law_loopback_addresses(address: Seq<char>)
    ensures
        is_loopback(address) <==> address == "127.0.0.1"@ || address == "::1"@,
{
}

/// A server runs after a start exactly where it ran before or was launched.
pub proof fn law_server_runs_where_launched(state: ServerState, launched: Result<(), String>)
    ensures
        state_after_start(state, launched) == ServerState::Running <==> state
            == ServerState::Running || launched is Ok,
{
}

/// A start of a server of this crate keeps its configuration. It fails exactly
/// where a stopped server was not launched, and the server then stays stopped; a
/// stop never fails, and the server is stopped.
pub proof fn law_lifecycle_of_a_server(
    before: (MiniServerConfig, ServerState),
    launched: Result<(), String>,
    after: (MiniServerConfig, ServerState),
    r: Result<(), MiniServerError>,
    error_text: Seq<char>,
)
    ensures
        started(before, launched, after, r, error_text) ==> {
            &&& after.0 == before.0
            &&& r is Err <==> before.1 == ServerState::Stopped && launched is Err
            &&& r is Ok ==> after.1 == ServerState::Running
            &&& r matches Err(e) ==> after.1 == ServerState::Stopped && (e matches MiniServerError::Start(what)
                && what@ == error_text)
        },
        stopped(before, after, r) ==> r is Ok && after.0 == before.0 && after.1
            == ServerState::Stopped,
{
}

/// What is shown of the servers is the configuration and state of each, under
/// its id.
pub proof fn law_what_is_shown_of_servers<S: MiniServer>(servers: Map<Id, S>, id: Id)
    ensures
        summaries(servers).contains_key(id) <==> servers.contains_key(id),
        servers.contains_key(id) ==> summaries(servers)[id] == (
            servers[id].config_of(),
            servers[id].state_of(),
        ),
{
}

} // verus!
