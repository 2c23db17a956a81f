//! HTTP file server mini-server: its lifecycle and what it serves.
//!
//! Safe by default: binds loopback and serves read-only. Exposing it on a
//! non-loopback address triggers
//! [`MiniServerConfig::security_warning`](crate::miniservers::service::MiniServerConfig::security_warning).

use vstd::prelude::*;
use vstd::string::*;

use crate::miniservers::error::MiniServerError;
use crate::miniservers::service;
use crate::miniservers::service::{MiniServer, MiniServerConfig, ServerState};
use crate::text;
use crate::text::{concat, push_decimal};

verus! {

/// What to launch: which directory to serve, and where to listen.
#[derive(Debug, PartialEq, Eq)]
pub struct HttpPlan {
    pub root: String,
    pub bind_address: String,
    pub port: u16,
}

/// The directory that is served: the current one unless another is set.
pub open spec fn served_root(config: MiniServerConfig) -> Seq<char> {
    match config.root_dir {
        Some(dir) => dir@,
        None => "."@,
    }
}

/// The text of a failed bind.
pub open spec fn bind_error_text(config: MiniServerConfig, why: Seq<char>) -> Seq<char> {
    "bind "@ + config.bind_address@ + ":"@ + text::decimal(config.port as nat) + ": "@ + why
}

/// A read-only static-file HTTP server.
#[derive(Debug)]
pub struct HttpFileServer {
    config: MiniServerConfig,
    state: ServerState,
}

impl HttpFileServer {
    pub fn new(config: MiniServerConfig) -> (r: HttpFileServer)
        ensures
            r.config_of() == config,
            r.state_of() == ServerState::Stopped,
    {
        HttpFileServer { config, state: ServerState::Stopped }
    }

    /// What to launch to start the server, unless it runs already.
    pub fn plan(&self) -> (r: Option<HttpPlan>)
        ensures
            self.state_of() == ServerState::Running ==> r is None,
            self.state_of() == ServerState::Stopped ==> {
                &&& r matches Some(plan)
                &&& plan.root@ == served_root(self.config_of())
                &&& plan.bind_address == self.config_of().bind_address
                &&& plan.port == self.config_of().port
            },
    {
        if self.state == ServerState::Running {
            return None;
        }
        let root: String = match &self.config.root_dir {
            Some(dir) => dir.clone(),
            None => ".".to_string(),
        };
        Some(
            HttpPlan {
                root,
                bind_address: self.config.bind_address.clone(),
                port: self.config.port,
            },
        )
    }
}

impl MiniServer for HttpFileServer {
    closed spec fn config_of(self) -> MiniServerConfig {
        self.config
    }

    closed spec fn state_of(self) -> ServerState {
        self.state
    }

    fn config(&self) -> (r: &MiniServerConfig) {
        &self.config
    }

    fn state(&self) -> (r: ServerState) {
        self.state
    }

    /// A server that runs already was not to be launched: nothing changes.
    fn start(&mut self, launched: Result<(), String>) -> (r: Result<(), MiniServerError>)
        ensures
            service::started(
                (old(self).config_of(), old(self).state_of()),
                launched,
                (final(self).config_of(), final(self).state_of()),
                r,
                bind_error_text(old(self).config_of(), launched->Err_0@),
            ),
    {
        if self.state == ServerState::Running {
            return Ok(());
        }
        match launched {
            Ok(_) => {
                self.state = ServerState::Running;
                Ok(())
            },
            Err(why) => {
                let mut what = concat("bind ", self.config.bind_address.as_str());
                what.append(":");
                push_decimal(&mut what, self.config.port as u64);
                what.append(": ");
                what.append(why.as_str());
                Err(MiniServerError::Start(what))
            },
        }
    }

    fn stop(&mut self) -> (r: Result<(), MiniServerError>)
        ensures
            service::stopped(
                (old(self).config_of(), old(self).state_of()),
                (final(self).config_of(), final(self).state_of()),
                r,
            ),
    {
        self.state = ServerState::Stopped;
        Ok(())
    }
}

/// The directory of the configuration is served, or the current one where none
/// is set, and a failed bind is reported with the address and the port.
pub proof fn law_what_is_served(config: MiniServerConfig, why: Seq<char>)
    ensures
        config.root_dir matches Some(dir) ==> served_root(config) == dir@,
        config.root_dir is None ==> served_root(config) == "."@,
        bind_error_text(config, why) == "bind "@ + config.bind_address@ + ":"@ + text::decimal(
            config.port as nat,
        ) + ": "@ + why,
{
}

} // verus!
