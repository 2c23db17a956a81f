//! Decisions and bookkeeping of the driver that forwards over an SSH session.
//!
//! One driver holds **one** SSH connection and forwards every definition over
//! it; `ssh_profile_id` is not resolved again here. A single SSH connection
//! hosts at most one remote (`-R`) forward: the receiver of the connections that
//! the server opens back to us is taken once.
//!
//! Starting a tunnel goes in steps: [`TunnelStart`] says what to do next, and is
//! told what came of it.

use std::collections::HashMap;

use vstd::prelude::*;
use vstd::string::*;

use crate::ids::Id;
use crate::text;
use crate::text::{concat, push_decimal};
use crate::tunnels::error::TunnelError;
use crate::tunnels::manager::{TunnelKind, TunnelSpec};

verus! {

/// The forwarding kind resolved from a definition.
#[derive(Debug, PartialEq, Eq)]
pub enum ForwardMode {
    /// `-L`: every local connection forwards to a fixed `host:port`.
    Local { host: String, port: u16 },
    /// `-D`: every local connection is a SOCKS5 request choosing its destination.
    Dynamic,
    /// `-R`: the server listens on `remote_*` and forwards connections back to
    /// us; we connect them to `local_*` on this machine.
    Remote { remote_host: String, remote_port: u16, local_host: String, local_port: u16 },
}

/// What an *accepted local* connection should do (the listener-based modes).
#[derive(Debug, PartialEq, Eq)]
pub enum ConnMode {
    Local { host: String, port: u16 },
    Dynamic,
}

impl Clone for ConnMode {
    fn clone(&self) -> (r: Self)
        ensures
            r == *self,
    {
        match self {
            ConnMode::Local { host, port } => ConnMode::Local { host: host.clone(), port: *port },
            ConnMode::Dynamic => ConnMode::Dynamic,
        }
    }
}

/// Whether a definition says everything that its kind of forwarding needs.
pub open spec fn is_complete(spec: TunnelSpec) -> bool {
    spec.kind == TunnelKind::Dynamic || spec.has_target()
}

/// The forwarding mode of a complete definition.
pub open spec fn mode_of(spec: TunnelSpec) -> ForwardMode {
    match spec.kind {
        TunnelKind::Local => ForwardMode::Local {
            host: spec.target_host->0,
            port: spec.target_port->0,
        },
        TunnelKind::Dynamic => ForwardMode::Dynamic,
        TunnelKind::Remote => ForwardMode::Remote {
            remote_host: spec.bind_address,
            remote_port: spec.bind_port,
            local_host: spec.target_host->0,
            local_port: spec.target_port->0,
        },
    }
}

/// Decide the forwarding mode for a definition. An incomplete one is rejected
/// before any socket opens.
pub fn forward_mode_for(spec: &TunnelSpec) -> (r: Result<ForwardMode, TunnelError>)
    ensures
        is_complete(*spec) ==> r == Ok::<ForwardMode, TunnelError>(mode_of(*spec)),
        !is_complete(*spec) ==> (r matches Err(TunnelError::InvalidSpec(what)) && what@
            == "the forward needs a target host and a target port"@),
{
    match spec.kind {
        TunnelKind::Local => match spec.local_forward_target() {
            Ok((host, port)) => Ok(ForwardMode::Local { host, port }),
            Err(e) => Err(e),
        },
        TunnelKind::Dynamic => Ok(ForwardMode::Dynamic),
        TunnelKind::Remote => match spec.remote_forward_endpoints() {
            Ok(((remote_host, remote_port), (local_host, local_port))) => Ok(
                ForwardMode::Remote { remote_host, remote_port, local_host, local_port },
            ),
            Err(e) => Err(e),
        },
    }
}

/// What to do to start a tunnel.
#[derive(Debug, PartialEq, Eq)]
pub enum StartStep {
    /// Bind a listener here, and treat the connections it accepts as `mode` says.
    Listen { bind_address: String, bind_port: u16, mode: ConnMode },
    /// Take the receiver of forwarded connections, then ask the server to listen
    /// on `remote_*`; each connection it opens back goes to `local_*`.
    RequestRemote { remote_host: String, remote_port: u16, local_host: String, local_port: u16 },
}

/// What to do to start a tunnel in this mode.
pub open spec fn step_for(spec: TunnelSpec) -> StartStep {
    match mode_of(spec) {
        ForwardMode::Local { host, port } => StartStep::Listen {
            bind_address: spec.bind_address,
            bind_port: spec.bind_port,
            mode: ConnMode::Local { host, port },
        },
        ForwardMode::Dynamic => StartStep::Listen {
            bind_address: spec.bind_address,
            bind_port: spec.bind_port,
            mode: ConnMode::Dynamic,
        },
        ForwardMode::Remote { remote_host, remote_port, local_host, local_port } =>
            StartStep::RequestRemote { remote_host, remote_port, local_host, local_port },
    }
}

/// The first step of starting a tunnel. Resolves the endpoints; errors for
/// malformed definitions before any I/O.
pub fn start_step(spec: &TunnelSpec) -> (r: Result<StartStep, TunnelError>)
    ensures
        is_complete(*spec) ==> r == Ok::<StartStep, TunnelError>(step_for(*spec)),
        !is_complete(*spec) ==> (r matches Err(TunnelError::InvalidSpec(what)) && what@
            == "the forward needs a target host and a target port"@),
{
    match forward_mode_for(spec) {
        Ok(ForwardMode::Local { host, port }) => {
            let (bind_address, bind_port) = spec.bind_endpoint();
            Ok(
                StartStep::Listen { bind_address, bind_port, mode: ConnMode::Local { host, port } },
            )
        },
        Ok(ForwardMode::Dynamic) => {
            let (bind_address, bind_port) = spec.bind_endpoint();
            Ok(StartStep::Listen { bind_address, bind_port, mode: ConnMode::Dynamic })
        },
        Ok(ForwardMode::Remote { remote_host, remote_port, local_host, local_port }) => Ok(
            StartStep::RequestRemote { remote_host, remote_port, local_host, local_port },
        ),
        Err(e) => Err(e),
    }
}

/// Why a local listener did not come about.
#[derive(Debug)]
pub enum ListenFailure {
    /// It could not be bound.
    Bind(String),
    /// The address it was bound to could not be learnt.
    LocalAddr(String),
}

/// The text of a failed bind.
pub open spec fn bind_failed_text(address: Seq<char>, port: u16, why: Seq<char>) -> Seq<char> {
    "bind "@ + address + ":"@ + text::decimal(port as nat) + " failed: "@ + why
}

/// Where the receiver of forwarded connections is.
#[derive(Debug, Clone, Copy, PartialEq, Eq, Structural)]
pub enum ForwardedReceiver {
    /// With the connection.
    Available,
    /// Taken, for a remote forward that is being started.
    Taken,
    /// Handed to a remote forward, or lost with one that did not start.
    Spent,
}

/// The running tunnels of a driver, each with the `(bind address, assigned
/// port)` to cancel on the server when a remote forward stops, and where the
/// receiver of forwarded connections is.
pub struct DriverModel {
    pub running: Map<Id, Option<(String, u16)>>,
    pub receiver: ForwardedReceiver,
}

/// Port-forwarding driver over a single shared SSH connection.
pub struct RusshTunnelDriver {
    running: HashMap<Id, Option<(String, u16)>>,
    receiver: ForwardedReceiver,
}

impl View for RusshTunnelDriver {
    type V = DriverModel;

    closed spec fn view(&self) -> DriverModel {
        DriverModel { running: self.running@, receiver: self.receiver }
    }
}

/// Whether finitely many tunnels run, at most one of them a remote forward, and
/// no remote one before the receiver has been handed over.
pub open spec fn one_remote_forward(driver: DriverModel) -> bool {
    &&& driver.running.dom().finite()
    &&& driver.receiver != ForwardedReceiver::Spent ==> forall|id: Id| #[trigger]
        driver.running.contains_key(id) ==> driver.running[id] is None
    &&& forall|a: Id, b: Id| #[trigger]
        driver.running.contains_key(a) && #[trigger] driver.running.contains_key(b)
            && driver.running[a] is Some && driver.running[b] is Some ==> a == b
}

/// What stopping a tunnel takes.
#[derive(Debug, PartialEq, Eq)]
pub enum StopStep {
    /// No such tunnel is running.
    Nothing,
    /// Signal and end the tasks of the tunnel.
    EndTasks,
    /// Signal and end the tasks, and ask the server to stop listening here.
    EndTasksAndCancel { bind_address: String, port: u16 },
}

/// What stopping this tunnel takes.
pub open spec fn stop_step_for(driver: DriverModel, id: Id) -> StopStep {
    if !driver.running.contains_key(id) {
        StopStep::Nothing
    } else {
        match driver.running[id] {
            None => StopStep::EndTasks,
            Some((bind_address, port)) => StopStep::EndTasksAndCancel { bind_address, port },
        }
    }
}

impl RusshTunnelDriver {
    /// At most one remote forward runs.
    pub open spec fn wf(self) -> bool {
        one_remote_forward(self@)
    }

    /// A driver over an already-established connection (e.g. one shared with a
    /// shell, or a jump-host connection).
    pub fn from_connection() -> (r: RusshTunnelDriver)
        ensures
            r.wf(),
            r@.running == Map::<Id, Option<(String, u16)>>::empty(),
            r@.receiver == ForwardedReceiver::Available,
    {
        broadcast use vstd::std_specs::hash::group_hash_axioms;

        RusshTunnelDriver { running: HashMap::new(), receiver: ForwardedReceiver::Available }
    }

    /// A driver over the connection that was to be established, through a chain
    /// of gateways or without, or why there is none.
    pub fn connect(outcome: Result<(), String>) -> (r: Result<RusshTunnelDriver, TunnelError>)
        ensures
            match outcome {
                Ok(_) => {
                    &&& r matches Ok(driver)
                    &&& driver.wf()
                    &&& driver@.running == Map::<Id, Option<(String, u16)>>::empty()
                    &&& driver@.receiver == ForwardedReceiver::Available
                },
                Err(why) => r == Err::<RusshTunnelDriver, TunnelError>(TunnelError::Driver(why)),
            },
    {
        match outcome {
            Ok(_) => Ok(RusshTunnelDriver::from_connection()),
            Err(why) => Err(TunnelError::Driver(why)),
        }
    }

    /// Where the receiver of forwarded connections is.
    pub fn receiver(&self) -> (r: ForwardedReceiver)
        ensures
            r == self@.receiver,
    {
        self.receiver
    }

    /// Number of currently running tunnels.
    pub fn running_count(&self) -> (r: usize)
        ensures
            r == self@.running.dom().len(),
    {
        broadcast use vstd::std_specs::hash::group_hash_axioms;

        self.running.len()
    }

    /// Takes in what came of binding the listener of a local or dynamic forward.
    pub fn listening(&mut self, spec: &TunnelSpec, outcome: Result<(), ListenFailure>) -> (r:
        Result<(), TunnelError>)
        requires
            old(self).wf(),
        ensures
            final(self).wf(),
            final(self)@.receiver == old(self)@.receiver,
            match outcome {
                Ok(_) => {
                    &&& r is Ok
                    &&& final(self)@.running == old(self)@.running.insert(spec.id, None)
                },
                Err(ListenFailure::Bind(why)) => {
                    &&& final(self)@ == old(self)@
                    &&& r matches Err(TunnelError::Driver(what))
                    &&& what@ == bind_failed_text(spec.bind_address@, spec.bind_port, why@)
                },
                Err(ListenFailure::LocalAddr(why)) => {
                    &&& final(self)@ == old(self)@
                    &&& r == Err::<(), TunnelError>(TunnelError::Driver(why))
                },
            },
    {
        broadcast use vstd::std_specs::hash::group_hash_axioms;

        match outcome {
            Ok(_) => {
                self.running.insert(spec.id, None);
                Ok(())
            },
            Err(ListenFailure::Bind(why)) => {
                let mut what = concat("bind ", spec.bind_address.as_str());
                what.append(":");
                push_decimal(&mut what, spec.bind_port as u64);
                what.append(" failed: ");
                what.append(why.as_str());
                Err(TunnelError::Driver(what))
            },
            Err(ListenFailure::LocalAddr(why)) => Err(TunnelError::Driver(why)),
        }
    }

    /// Takes the receiver of forwarded connections, so that a second remote
    /// forward fails cleanly before the server is asked to bind. `available`
    /// says whether the connection still has it to give.
    pub fn take_forwarded(&mut self, available: bool) -> (r: Result<(), TunnelError>)
        requires
            old(self).wf(),
        ensures
            final(self).wf(),
            final(self)@.running == old(self)@.running,
            if available && old(self)@.receiver == ForwardedReceiver::Available {
                &&& r is Ok
                &&& final(self)@.receiver == ForwardedReceiver::Taken
            } else {
                &&& final(self)@.receiver == old(self)@.receiver
                &&& r matches Err(TunnelError::Driver(what))
                &&& what@ == "a remote forward is already active on this SSH connection"@
            },
    {
        if available && self.receiver == ForwardedReceiver::Available {
            self.receiver = ForwardedReceiver::Taken;
            Ok(())
        } else {
            Err(
                TunnelError::Driver(
                    "a remote forward is already active on this SSH connection".to_string(),
                ),
            )
        }
    }

    /// Takes in what came of asking the server to listen: the port it assigned,
    /// or why it refused. It is asked only with the receiver in hand.
    pub fn remote_bound(&mut self, spec: &TunnelSpec, outcome: Result<u16, String>) -> (r: Result<
        (),
        TunnelError,
    >)
        requires
            old(self).wf(),
            old(self)@.receiver == ForwardedReceiver::Taken,
        ensures
            final(self).wf(),
            final(self)@.receiver == ForwardedReceiver::Spent,
            match outcome {
                Ok(port) => {
                    &&& r is Ok
                    &&& final(self)@.running == old(self)@.running.insert(
                        spec.id,
                        Some((spec.bind_address, port)),
                    )
                },
                Err(why) => {
                    &&& r == Err::<(), TunnelError>(TunnelError::Driver(why))
                    &&& final(self)@.running == old(self)@.running
                },
            },
    {
        broadcast use vstd::std_specs::hash::group_hash_axioms;

        self.receiver = ForwardedReceiver::Spent;
        match outcome {
            Ok(port) => {
                self.running.insert(spec.id, Some((spec.bind_address.clone(), port)));
                Ok(())
            },
            Err(why) => Err(TunnelError::Driver(why)),
        }
    }

    /// Forgets a running tunnel, and says what stopping it takes.
    pub fn stop(&mut self, id: Id) -> (r: StopStep)
        requires
            old(self).wf(),
        ensures
            final(self).wf(),
            final(self)@.receiver == old(self)@.receiver,
            final(self)@.running == old(self)@.running.remove(id),
            r == stop_step_for(old(self)@, id),
    {
        broadcast use vstd::std_specs::hash::group_hash_axioms;

        let step = match self.running.remove(&id) {
            None => StopStep::Nothing,
            Some(None) => StopStep::EndTasks,
            Some(Some((bind_address, port))) => StopStep::EndTasksAndCancel { bind_address, port },
        };
        assert(self@.running =~= old(self)@.running.remove(id));
        step
    }
}

// ---------------------------------------------------------------------------
// Starting a tunnel
// ---------------------------------------------------------------------------

/// How far the start of a tunnel has come.
#[derive(Debug, Clone, Copy, PartialEq, Eq, Structural)]
pub enum StartPhase {
    /// The listener is being bound.
    Binding,
    /// The receiver of forwarded connections is being taken.
    Taking,
    /// The server is being asked to listen.
    Requesting,
    /// The start is decided.
    Over,
}

/// What to do next to start a tunnel.
#[derive(Debug)]
pub enum StartAction {
    /// Bind a listener, and treat the connections it accepts as `mode` says.
    Bind { bind_address: String, bind_port: u16, mode: ConnMode },
    /// Take the receiver of forwarded connections from the connection.
    TakeForwarded,
    /// Ask the server to listen here. Once it does, each connection that it
    /// opens back goes to the local target.
    RequestRemote {
        remote_host: String,
        remote_port: u16,
        local_host: String,
        local_port: u16,
    },
    /// The tunnel runs, or why it does not.
    Done(Result<(), TunnelError>),
}

/// What came of the last action.
#[derive(Debug)]
pub enum StartEvent {
    Bound(Result<(), ListenFailure>),
    /// Whether the connection still had the receiver to give.
    Receiver { available: bool },
    /// The port that the server assigned, or why it refused.
    Assigned(Result<u16, String>),
}

/// The start of one tunnel.
pub struct TunnelStart {
    spec: TunnelSpec,
    phase: StartPhase,
}

/// The action that asks the server to listen for a remote forward.
pub open spec fn request_for(spec: TunnelSpec) -> StartAction {
    StartAction::RequestRemote {
        remote_host: spec.bind_address,
        remote_port: spec.bind_port,
        local_host: spec.target_host->0,
        local_port: spec.target_port->0,
    }
}

/// Whether an action reports a failure of the driver, in these words.
pub open spec fn fails_with(action: StartAction, text: Seq<char>) -> bool {
    action matches StartAction::Done(Err(TunnelError::Driver(what))) && what@ == text
}

/// Whether the start of a tunnel begins in this phase and with this action. A
/// malformed definition fails at once.
pub open spec fn begun(spec: TunnelSpec, phase: StartPhase, action: StartAction) -> bool {
    if !is_complete(spec) {
        &&& phase == StartPhase::Over
        &&& action matches StartAction::Done(Err(TunnelError::InvalidSpec(what)))
        &&& what@ == "the forward needs a target host and a target port"@
    } else {
        match step_for(spec) {
            StartStep::Listen { bind_address, bind_port, mode } => {
                &&& phase == StartPhase::Binding
                &&& action == (StartAction::Bind { bind_address, bind_port, mode })
            },
            StartStep::RequestRemote { .. } => {
                &&& phase == StartPhase::Taking
                &&& action == StartAction::TakeForwarded
            },
        }
    }
}

/// Whether an event takes the start of a tunnel from one phase to another, and
/// its driver along, and calls for this action.
pub open spec fn advanced(
    spec: TunnelSpec,
    phase: StartPhase,
    driver: DriverModel,
    event: StartEvent,
    next_phase: StartPhase,
    next_driver: DriverModel,
    action: StartAction,
) -> bool {
    match (phase, event) {
        (StartPhase::Binding, StartEvent::Bound(outcome)) => {
            &&& next_phase == StartPhase::Over
            &&& next_driver.receiver == driver.receiver
            &&& match outcome {
                Ok(_) => {
                    &&& action matches StartAction::Done(Ok(_))
                    &&& next_driver.running == driver.running.insert(spec.id, None)
                },
                Err(ListenFailure::Bind(why)) => {
                    &&& fails_with(
                        action,
                        bind_failed_text(spec.bind_address@, spec.bind_port, why@),
                    )
                    &&& next_driver.running == driver.running
                },
                Err(ListenFailure::LocalAddr(why)) => {
                    &&& fails_with(action, why@)
                    &&& next_driver.running == driver.running
                },
            }
        },
        (StartPhase::Taking, StartEvent::Receiver { available }) => {
            &&& next_driver.running == driver.running
            &&& if available && driver.receiver == ForwardedReceiver::Available {
                &&& action == request_for(spec)
                &&& next_phase == StartPhase::Requesting
                &&& next_driver.receiver == ForwardedReceiver::Taken
            } else {
                &&& fails_with(
                    action,
                    "a remote forward is already active on this SSH connection"@,
                )
                &&& next_phase == StartPhase::Over
                &&& next_driver.receiver == driver.receiver
            }
        },
        (StartPhase::Requesting, StartEvent::Assigned(outcome)) if driver.receiver
            == ForwardedReceiver::Taken => {
            &&& next_phase == StartPhase::Over
            &&& next_driver.receiver == ForwardedReceiver::Spent
            &&& match outcome {
                Ok(port) => {
                    &&& action matches StartAction::Done(Ok(_))
                    &&& next_driver.running == driver.running.insert(
                        spec.id,
                        Some((spec.bind_address, port)),
                    )
                },
                Err(why) => {
                    &&& fails_with(action, why@)
                    &&& next_driver.running == driver.running
                },
            }
        },
        _ => {
            &&& fails_with(action, "the start of the tunnel was interrupted"@)
            &&& next_phase == StartPhase::Over
            &&& next_driver == driver
        },
    }
}

/// The end of a start that was told of something it had not asked for.
fn interrupted() -> (r: StartAction)
    ensures
        fails_with(r, "the start of the tunnel was interrupted"@),
{
    StartAction::Done(
        Err(TunnelError::Driver("the start of the tunnel was interrupted".to_string())),
    )
}

impl TunnelStart {
    /// The definition of the tunnel.
    pub closed spec fn spec_of(self) -> TunnelSpec {
        self.spec
    }

    /// How far the start has come.
    pub closed spec fn phase_of(self) -> StartPhase {
        self.phase
    }

    /// What is being started is complete, and is of the kind that its phase is for.
    pub open spec fn wf(self) -> bool {
        match self.phase_of() {
            StartPhase::Binding => is_complete(self.spec_of()) && self.spec_of().kind
                != TunnelKind::Remote,
            StartPhase::Taking | StartPhase::Requesting => is_complete(self.spec_of())
                && self.spec_of().kind == TunnelKind::Remote,
            StartPhase::Over => true,
        }
    }

    /// Begins to start a tunnel. A malformed definition fails before any I/O.
    pub fn begin(spec: TunnelSpec) -> (r: (TunnelStart, StartAction))
        ensures
            r.0.wf(),
            r.0.spec_of() == spec,
            begun(spec, r.0.phase_of(), r.1),
    {
        match start_step(&spec) {
            Err(e) => (
                TunnelStart { spec, phase: StartPhase::Over },
                StartAction::Done(Err(e)),
            ),
            Ok(StartStep::Listen { bind_address, bind_port, mode }) => (
                TunnelStart { spec, phase: StartPhase::Binding },
                StartAction::Bind { bind_address, bind_port, mode },
            ),
            Ok(StartStep::RequestRemote { .. }) => (
                TunnelStart { spec, phase: StartPhase::Taking },
                StartAction::TakeForwarded,
            ),
        }
    }

    /// Takes in what came of the last action, and names the next one. The server
    /// is asked to listen only with the receiver in hand, and a tunnel that does
    /// not start leaves the running ones as they were.
    pub fn advance(&mut self, driver: &mut RusshTunnelDriver, event: StartEvent) -> (r:
        StartAction)
        requires
            old(self).wf(),
            old(driver).wf(),
        ensures
            final(self).wf(),
            final(driver).wf(),
            final(self).spec_of() == old(self).spec_of(),
            r is RequestRemote ==> final(driver)@.receiver == ForwardedReceiver::Taken,
            r matches StartAction::Done(Err(_)) ==> final(driver)@.running == old(driver)@.running,
            advanced(
                old(self).spec_of(),
                old(self).phase_of(),
                old(driver)@,
                event,
                final(self).phase_of(),
                final(driver)@,
                r,
            ),
    {
        let phase: StartPhase = self.phase;
        self.phase = StartPhase::Over;
        match (phase, event) {
            (StartPhase::Binding, StartEvent::Bound(outcome)) => StartAction::Done(
                driver.listening(&self.spec, outcome),
            ),
            (StartPhase::Taking, StartEvent::Receiver { available }) => {
                match self.spec.remote_forward_endpoints() {
                    Ok(((remote_host, remote_port), (local_host, local_port))) => {
                        match driver.take_forwarded(available) {
                            Ok(()) => {
                                self.phase = StartPhase::Requesting;
                                StartAction::RequestRemote {
                                    remote_host,
                                    remote_port,
                                    local_host,
                                    local_port,
                                }
                            },
                            Err(e) => StartAction::Done(Err(e)),
                        }
                    },
                    Err(e) => StartAction::Done(Err(e)),
                }
            },
            (StartPhase::Requesting, StartEvent::Assigned(outcome)) => {
                if driver.receiver == ForwardedReceiver::Taken {
                    StartAction::Done(driver.remote_bound(&self.spec, outcome))
                } else {
                    interrupted()
                }
            },
            _ => interrupted(),
        }
    }
}

/// Whether a whole start of `spec`, in which each action is performed by
/// `perform`, takes a driver from one state to another with this end. A malformed
/// definition has nothing performed.
pub open spec fn start_outcome<F: Fn(StartAction) -> StartEvent>(
    perform: F,
    spec: TunnelSpec,
    before: DriverModel,
    after: DriverModel,
    outcome: Result<(), TunnelError>,
) -> bool {
    if !is_complete(spec) {
        &&& after == before
        &&& outcome matches Err(TunnelError::InvalidSpec(what))
        &&& what@ == "the forward needs a target host and a target port"@
    } else {
        match step_for(spec) {
            StartStep::Listen { bind_address, bind_port, mode } => exists|event: StartEvent|
                #[trigger] call_ensures(
                    perform,
                    (StartAction::Bind { bind_address, bind_port, mode },),
                    event,
                ) && advanced(
                    spec,
                    StartPhase::Binding,
                    before,
                    event,
                    StartPhase::Over,
                    after,
                    StartAction::Done(outcome),
                ),
            StartStep::RequestRemote { .. } => {
                ||| exists|event: StartEvent|
                    #[trigger] call_ensures(perform, (StartAction::TakeForwarded,), event)
                        && advanced(
                        spec,
                        StartPhase::Taking,
                        before,
                        event,
                        StartPhase::Over,
                        after,
                        StartAction::Done(outcome),
                    )
                ||| exists|taken: DriverModel, event: StartEvent|
                    {
                        &&& #[trigger] receiver_taken(perform, spec, before, taken)
                        &&& #[trigger] call_ensures(perform, (request_for(spec),), event)
                        &&& advanced(
                            spec,
                            StartPhase::Requesting,
                            taken,
                            event,
                            StartPhase::Over,
                            after,
                            StartAction::Done(outcome),
                        )
                    }
            },
        }
    }
}

/// Whether `perform` gets the receiver that the start of a remote forward needs,
/// and the driver is in the state `taken` with it.
pub open spec fn receiver_taken<F: Fn(StartAction) -> StartEvent>(
    perform: F,
    spec: TunnelSpec,
    before: DriverModel,
    taken: DriverModel,
) -> bool {
    exists|event: StartEvent|
        #[trigger] call_ensures(perform, (StartAction::TakeForwarded,), event) && advanced(
            spec,
            StartPhase::Taking,
            before,
            event,
            StartPhase::Requesting,
            taken,
            request_for(spec),
        )
}

/// How a start by `perform` that has come this far got here.
spec fn start_so_far<F: Fn(StartAction) -> StartEvent>(
    perform: F,
    spec: TunnelSpec,
    before: DriverModel,
    phase: StartPhase,
    now: DriverModel,
    action: StartAction,
) -> bool {
    match phase {
        StartPhase::Binding | StartPhase::Taking => begun(spec, phase, action) && now == before,
        StartPhase::Requesting => {
            &&& action == request_for(spec)
            &&& receiver_taken(perform, spec, before, now)
        },
        StartPhase::Over => {
            &&& action matches StartAction::Done(outcome)
            &&& start_outcome(perform, spec, before, now, outcome)
        },
    }
}

/// How many actions a start in this phase has left at most.
spec fn actions_left(phase: StartPhase) -> int {
    match phase {
        StartPhase::Taking => 2,
        StartPhase::Binding | StartPhase::Requesting => 1,
        StartPhase::Over => 0,
    }
}

impl RusshTunnelDriver {
    /// Starts a tunnel. Each action that the start calls for is handed to
    /// `perform`, which says what came of it. A malformed definition fails before
    /// anything is performed, and a tunnel that does not start leaves the running
    /// ones as they were.
    pub fn start<F: Fn(StartAction) -> StartEvent>(&mut self, spec: &TunnelSpec, perform: F) -> (r:
        Result<(), TunnelError>)
        requires
            old(self).wf(),
            forall|action: StartAction| call_requires(perform, (action,)),
        ensures
            final(self).wf(),
            start_outcome(perform, *spec, old(self)@, final(self)@, r),
            r is Err ==> final(self)@.running == old(self)@.running,
            r is Ok && !old(self)@.running.contains_key(spec.id) ==> {
                &&& final(self)@.running.dom().len() == old(self)@.running.dom().len() + 1
                &&& final(self)@.running.remove(spec.id) == old(self)@.running
            },
    {
        let ghost before = self@;
        let (mut start, mut action) = TunnelStart::begin(spec.clone());
        loop
            invariant
                before == old(self)@,
                one_remote_forward(before),
                self.wf(),
                start.wf(),
                start.spec_of() == *spec,
                start_so_far(perform, *spec, before, start.phase_of(), self@, action),
                forall|action: StartAction| call_requires(perform, (action,)),
            decreases actions_left(start.phase_of()),
        {
            match action {
                StartAction::Done(outcome) => {
                    proof {
                        if !before.running.contains_key(spec.id) {
                            law_start_counts(perform, *spec, before, self@, outcome);
                        }
                    }
                    return outcome;
                },
                asked => {
                    let event = perform(asked);
                    action = start.advance(self, event);
                },
            }
        }
    }
}

/// While a remote forward runs the receiver is spent, so that a second one is
/// refused.
pub proof fn law_receiver_is_taken_once(driver: DriverModel, id: Id)
    requires
        one_remote_forward(driver),
        driver.running.contains_key(id),
        driver.running[id] is Some,
    ensures
        driver.receiver == ForwardedReceiver::Spent,
{
}

/// What was started can be stopped: a remote forward is cancelled at the server
/// under the address it was bound to and the port it was assigned, and a second
/// stop has nothing left to do.
pub proof fn law_stop_undoes_start(driver: DriverModel, spec: TunnelSpec, port: u16)
    ensures
        stop_step_for(
            (DriverModel {
                running: driver.running.insert(spec.id, Some((spec.bind_address, port))),
                receiver: ForwardedReceiver::Spent,
            }),
            spec.id,
        ) == (StopStep::EndTasksAndCancel { bind_address: spec.bind_address, port }),
        stop_step_for(
            (DriverModel { running: driver.running.insert(spec.id, None), receiver: driver.receiver }),
            spec.id,
        ) == StopStep::EndTasks,
        stop_step_for(
            (DriverModel { running: driver.running.remove(spec.id), receiver: driver.receiver }),
            spec.id,
        ) == StopStep::Nothing,
        !driver.running.contains_key(spec.id) ==> driver.running.insert(spec.id, None).remove(
            spec.id,
        ) == driver.running,
{
    if !driver.running.contains_key(spec.id) {
        assert(driver.running.insert(spec.id, None).remove(spec.id) =~= driver.running);
    }
}

/// A start raises the number of running tunnels by one, and stopping the tunnel
/// brings it back. A start that fails leaves the running tunnels as they were; a
/// malformed definition fails with nothing changed.
pub proof fn law_start_counts<F: Fn(StartAction) -> StartEvent>(
    perform: F,
    spec: TunnelSpec,
    before: DriverModel,
    after: DriverModel,
    outcome: Result<(), TunnelError>,
)
    requires
        start_outcome(perform, spec, before, after, outcome),
        one_remote_forward(before),
        !before.running.contains_key(spec.id),
    ensures
        !is_complete(spec) ==> {
            &&& outcome matches Err(TunnelError::InvalidSpec(what))
            &&& what@ == "the forward needs a target host and a target port"@
            &&& after == before
        },
        outcome is Err ==> after.running == before.running,
        outcome is Ok ==> {
            &&& after.running.dom().len() == before.running.dom().len() + 1
            &&& after.running.remove(spec.id) == before.running
            &&& after.running.remove(spec.id).dom().len() == before.running.dom().len()
        },
{
    if outcome is Ok {
        assert(after.running == before.running.insert(spec.id, after.running[spec.id]));
        assert(after.running.dom() =~= before.running.dom().insert(spec.id));
        assert(after.running.remove(spec.id) =~= before.running);
    }
}

/// A local and a remote forward need a target host and a target port; a dynamic
/// one needs neither.
pub proof fn law_what_a_forward_needs(spec: TunnelSpec)
    ensures
        spec.kind == TunnelKind::Dynamic ==> is_complete(spec),
        spec.kind != TunnelKind::Dynamic ==> (is_complete(spec) <==> spec.target_host is Some
            && spec.target_port is Some),
{
}

/// A local forward goes to its target and a dynamic one wherever the client asks,
/// both from a listener on this side. A remote forward listens on the server and
/// goes to its target on this side.
pub proof fn law_where_a_forward_goes(spec: TunnelSpec, host: String, port: u16)
    requires
        spec.kind != TunnelKind::Dynamic ==> spec.target_host == Some(host) && spec.target_port
            == Some(port),
    ensures
        spec.kind == TunnelKind::Local ==> mode_of(spec) == (ForwardMode::Local { host, port })
            && step_for(spec) == (StartStep::Listen {
            bind_address: spec.bind_address,
            bind_port: spec.bind_port,
            mode: ConnMode::Local { host, port },
        }),
        spec.kind == TunnelKind::Dynamic ==> mode_of(spec) == ForwardMode::Dynamic && step_for(spec)
            == (StartStep::Listen {
            bind_address: spec.bind_address,
            bind_port: spec.bind_port,
            mode: ConnMode::Dynamic,
        }),
        spec.kind == TunnelKind::Remote ==> mode_of(spec) == (ForwardMode::Remote {
            remote_host: spec.bind_address,
            remote_port: spec.bind_port,
            local_host: host,
            local_port: port,
        }) && step_for(spec) == (StartStep::RequestRemote {
            remote_host: spec.bind_address,
            remote_port: spec.bind_port,
            local_host: host,
            local_port: port,
        }),
{
}

/// A forward with a listener is started by binding it where the definition says,
/// for connections of its kind. It runs exactly where that succeeds, and the
/// receiver of forwarded connections is not touched.
pub proof fn law_listener_runs_once_bound<F: Fn(StartAction) -> StartEvent>(
    perform: F,
    spec: TunnelSpec,
    before: DriverModel,
    after: DriverModel,
    outcome: Result<(), TunnelError>,
    mode: ConnMode,
)
    requires
        start_outcome(perform, spec, before, after, outcome),
        ({
            ||| spec.kind == TunnelKind::Dynamic && mode == ConnMode::Dynamic
            ||| spec.kind == TunnelKind::Local && spec.target_host is Some && spec.target_port
                is Some && mode == (ConnMode::Local {
                host: spec.target_host->0,
                port: spec.target_port->0,
            })
        }),
    ensures
        exists|event: StartEvent|
            {
                &&& #[trigger] call_ensures(
                    perform,
                    (
                        StartAction::Bind {
                            bind_address: spec.bind_address,
                            bind_port: spec.bind_port,
                            mode,
                        },
                    ),
                    event,
                )
                &&& outcome is Ok <==> event matches StartEvent::Bound(Ok(_))
            },
        outcome is Ok ==> after.running == before.running.insert(spec.id, None),
        after.receiver == before.receiver,
{
}

/// A remote forward is started by taking the receiver and then asking the server
/// to listen where the definition says. It runs exactly where the receiver was
/// still there and the server has assigned a port, and what is remembered for
/// its stop is the address it was asked for and the port that was assigned.
pub proof fn law_remote_forward_runs_once_assigned<F: Fn(StartAction) -> StartEvent>(
    perform: F,
    spec: TunnelSpec,
    before: DriverModel,
    after: DriverModel,
)
    requires
        start_outcome(perform, spec, before, after, Ok::<(), TunnelError>(())),
        spec.kind == TunnelKind::Remote,
        spec.target_host is Some,
        spec.target_port is Some,
    ensures
        before.receiver == ForwardedReceiver::Available,
        after.receiver == ForwardedReceiver::Spent,
        call_ensures(
            perform,
            (StartAction::TakeForwarded,),
            StartEvent::Receiver { available: true },
        ),
        exists|port: u16|
            {
                &&& #[trigger] call_ensures(
                    perform,
                    (
                        StartAction::RequestRemote {
                            remote_host: spec.bind_address,
                            remote_port: spec.bind_port,
                            local_host: spec.target_host->0,
                            local_port: spec.target_port->0,
                        },
                    ),
                    StartEvent::Assigned(Ok(port)),
                )
                &&& after.running == before.running.insert(
                    spec.id,
                    Some((spec.bind_address, port)),
                )
            },
{
    assert(step_for(spec) is RequestRemote);
    let (taken, event) = choose|taken: DriverModel, event: StartEvent|
        {
            &&& #[trigger] receiver_taken(perform, spec, before, taken)
            &&& #[trigger] call_ensures(perform, (request_for(spec),), event)
            &&& advanced(
                spec,
                StartPhase::Requesting,
                taken,
                event,
                StartPhase::Over,
                after,
                StartAction::Done(Ok(())),
            )
        };
    assert(event matches StartEvent::Assigned(Ok(_)));
    let port = event->Assigned_0->Ok_0;
    assert(event == StartEvent::Assigned(Ok(port)));
}

/// The server is not asked to listen while a remote forward runs or once one has
/// run: the receiver has gone with it, and the start fails with nothing changed.
pub proof fn law_second_remote_forward_is_refused<F: Fn(StartAction) -> StartEvent>(
    perform: F,
    spec: TunnelSpec,
    before: DriverModel,
    after: DriverModel,
    outcome: Result<(), TunnelError>,
)
    requires
        start_outcome(perform, spec, before, after, outcome),
        spec.kind == TunnelKind::Remote,
        before.receiver != ForwardedReceiver::Available,
    ensures
        outcome is Err,
        after == before,
{
    assert(!is_complete(spec) || step_for(spec) is RequestRemote);
}

/// A stop ends the tasks of a tunnel that runs, cancels at the server what was
/// asked of it and nothing else, and does nothing for a tunnel that does not run.
pub proof fn law_what_a_stop_takes(driver: DriverModel, id: Id, bind_address: String, port: u16)
    ensures
        !driver.running.contains_key(id) ==> stop_step_for(driver, id) == StopStep::Nothing,
        driver.running.contains_key(id) && driver.running[id] is None ==> stop_step_for(driver, id)
            == StopStep::EndTasks,
        driver.running.contains_key(id) && driver.running[id] == Some((bind_address, port))
            ==> stop_step_for(driver, id) == (StopStep::EndTasksAndCancel { bind_address, port }),
{
}

/// What a failed bind is reported as.
pub proof fn law_text_of_a_failed_bind(address: Seq<char>, port: u16, why: Seq<char>)
    ensures
        bind_failed_text(address, port, why) == "bind "@ + address + ":"@ + text::decimal(
            port as nat,
        ) + " failed: "@ + why,
{
}

} // verus!
