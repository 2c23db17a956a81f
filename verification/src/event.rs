//! Events that core subsystems emit.
//!
//! Frontends subscribe to these instead of polling. Operations here return the
//! events they raise; publishing them is for the caller.

use vstd::prelude::*;
use vstd::string::*;

use crate::ids::Id;
use crate::model::session::SessionState;

verus! {

/// Events emitted by core subsystems.
#[derive(Debug)]
pub enum AppEvent {
    SessionStateChanged { session_id: Id, state: SessionState },
    SessionClosed { session_id: Id },
    TunnelStatusChanged { tunnel_id: Id, status: String },
    MiniServerStateChanged { server_id: Id, running: bool },
    Log { level: LogLevel, message: String },
}

/// Severity of a log event.
#[derive(Debug, Clone, Copy, PartialEq, Eq, Structural)]
pub enum LogLevel {
    Info,
    Warn,
    Error,
}

impl Clone for AppEvent {
    fn clone(&self) -> (r: Self)
        ensures
            r == *self,
    {
        match self {
            AppEvent::SessionStateChanged { session_id, state } => AppEvent::SessionStateChanged {
                session_id: *session_id,
                state: state.clone(),
            },
            AppEvent::SessionClosed { session_id } => AppEvent::SessionClosed {
                session_id: *session_id,
            },
            AppEvent::TunnelStatusChanged { tunnel_id, status } => AppEvent::TunnelStatusChanged {
                tunnel_id: *tunnel_id,
                status: status.clone(),
            },
            AppEvent::MiniServerStateChanged { server_id, running } =>
                AppEvent::MiniServerStateChanged { server_id: *server_id, running: *running },
            AppEvent::Log { level, message } => AppEvent::Log {
                level: *level,
                message: message.clone(),
            },
        }
    }
}

} // verus!
