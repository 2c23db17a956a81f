//! A minimal interval scheduler mini-server: its lifecycle and its tasks.
//!
//! Registered tasks run every so often. Full cron support is a follow-up.

use std::time::Duration;

use vstd::prelude::*;
use vstd::string::*;

use crate::miniservers::error::MiniServerError;
use crate::miniservers::service;
use crate::miniservers::service::{MiniServer, MiniServerConfig, ServerState};

verus! {

/// A periodic task.
pub struct ScheduledTask<A> {
    pub name: String,
    pub every: Duration,
    /// Work to perform on each tick.
    pub action: A,
}

/// Runs [`ScheduledTask`]s on fixed intervals.
pub struct SchedulerServer<A> {
    config: MiniServerConfig,
    state: ServerState,
    tasks: Vec<ScheduledTask<A>>,
}

impl<A> SchedulerServer<A> {
    /// The tasks it runs.
    pub closed spec fn tasks_of(self) -> Seq<ScheduledTask<A>> {
        self.tasks@
    }

    pub fn new(config: MiniServerConfig, tasks: Vec<ScheduledTask<A>>) -> (r: SchedulerServer<A>)
        ensures
            r.config_of() == config,
            r.state_of() == ServerState::Stopped,
            r.tasks_of() == tasks@,
    {
        SchedulerServer { config, state: ServerState::Stopped, tasks }
    }

    /// The tasks to launch to start the server, unless it runs already: all of
    /// them.
    pub fn plan(&self) -> (r: Option<&Vec<ScheduledTask<A>>>)
        ensures
            self.state_of() == ServerState::Running ==> r is None,
            self.state_of() == ServerState::Stopped ==> (r matches Some(tasks) && tasks@
                == self.tasks_of()),
    {
        if self.state == ServerState::Running {
            None
        } else {
            Some(&self.tasks)
        }
    }
}

impl<A> MiniServer for SchedulerServer<A> {
    closed spec fn config_of(self) -> MiniServerConfig {
        self.config
    }

    closed spec fn state_of(self) -> ServerState {
        self.state
    }

    fn config(&self) -> (r: &MiniServerConfig) {
        &self.config
    }

    fn state(&self) -> (r: ServerState) {
        self.state
    }

    /// A server that runs already was not to be launched: nothing changes.
    fn start(&mut self, launched: Result<(), String>) -> (r: Result<(), MiniServerError>)
        ensures
            service::started(
                (old(self).config_of(), old(self).state_of()),
                launched,
                (final(self).config_of(), final(self).state_of()),
                r,
                launched->Err_0@,
            ),
            final(self).tasks_of() == old(self).tasks_of(),
    {
        if self.state == ServerState::Running {
            return Ok(());
        }
        match launched {
            Ok(_) => {
                self.state = ServerState::Running;
                Ok(())
            },
            Err(why) => Err(MiniServerError::Start(why)),
        }
    }

    fn stop(&mut self) -> (r: Result<(), MiniServerError>)
        ensures
            service::stopped(
                (old(self).config_of(), old(self).state_of()),
                (final(self).config_of(), final(self).state_of()),
                r,
            ),
            final(self).tasks_of() == old(self).tasks_of(),
    {
        self.state = ServerState::Stopped;
        Ok(())
    }
}

} // verus!
