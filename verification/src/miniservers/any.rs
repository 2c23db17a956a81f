//! The servers of this crate as one type, so that a manager can hold servers of
//! different kinds together.

use vstd::prelude::*;
use vstd::string::*;

use crate::miniservers::error::MiniServerError;
use crate::miniservers::http;
use crate::miniservers::http::HttpFileServer;
use crate::miniservers::scheduler::SchedulerServer;
use crate::miniservers::service;
use crate::miniservers::service::{MiniServer, MiniServerConfig, ServerState};

verus! {

/// A server of any kind. `A` is what the scheduler performs on a tick.
pub enum AnyServer<A> {
    Http(HttpFileServer),
    Scheduler(SchedulerServer<A>),
}

impl<A> MiniServer for AnyServer<A> {
    open spec fn config_of(self) -> MiniServerConfig {
        match self {
            AnyServer::Http(server) => server.config_of(),
            AnyServer::Scheduler(server) => server.config_of(),
        }
    }

    open spec fn state_of(self) -> ServerState {
        match self {
            AnyServer::Http(server) => server.state_of(),
            AnyServer::Scheduler(server) => server.state_of(),
        }
    }

    fn config(&self) -> (r: &MiniServerConfig) {
        match self {
            AnyServer::Http(server) => server.config(),
            AnyServer::Scheduler(server) => server.config(),
        }
    }

    fn state(&self) -> (r: ServerState) {
        match self {
            AnyServer::Http(server) => server.state(),
            AnyServer::Scheduler(server) => server.state(),
        }
    }

    fn start(&mut self, launched: Result<(), String>) -> (r: Result<(), MiniServerError>)
        ensures
            match *old(self) {
                AnyServer::Http(server) => {
                    &&& *final(self) matches AnyServer::Http(after)
                    &&& service::started(
                        (server.config_of(), server.state_of()),
                        launched,
                        (after.config_of(), after.state_of()),
                        r,
                        http::bind_error_text(server.config_of(), launched->Err_0@),
                    )
                },
                AnyServer::Scheduler(server) => {
                    &&& *final(self) matches AnyServer::Scheduler(after)
                    &&& service::started(
                        (server.config_of(), server.state_of()),
                        launched,
                        (after.config_of(), after.state_of()),
                        r,
                        launched->Err_0@,
                    )
                    &&& after.tasks_of() == server.tasks_of()
                },
            },
    {
        match self {
            AnyServer::Http(server) => server.start(launched),
            AnyServer::Scheduler(server) => server.start(launched),
        }
    }

    fn stop(&mut self) -> (r: Result<(), MiniServerError>)
        ensures
            match *old(self) {
                AnyServer::Http(server) => {
                    &&& *final(self) matches AnyServer::Http(after)
                    &&& service::stopped(
                        (server.config_of(), server.state_of()),
                        (after.config_of(), after.state_of()),
                        r,
                    )
                },
                AnyServer::Scheduler(server) => {
                    &&& *final(self) matches AnyServer::Scheduler(after)
                    &&& service::stopped(
                        (server.config_of(), server.state_of()),
                        (after.config_of(), after.state_of()),
                        r,
                    )
                    &&& after.tasks_of() == server.tasks_of()
                },
            },
    {
        match self {
            AnyServer::Http(server) => server.stop(),
            AnyServer::Scheduler(server) => server.stop(),
        }
    }
}

} // verus!
