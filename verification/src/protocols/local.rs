//! Decisions of the local-shell transport.
//!
//! A local shell is just another transport: it is selected for
//! `ProtocolSettings::LocalShell` profiles, and no network is involved. Opening
//! the PTY, forking the child and receiving its output are for the caller.

use vstd::prelude::*;
use vstd::string::*;

use crate::model::profile;
use crate::model::profile::{ConnectionProfile, ProtocolSettings};
use crate::protocols::error::ProtocolError;
use crate::text::concat;

verus! {

/// Initial PTY geometry (the conventional 80x24); the frontend resizes on attach.
pub const DEFAULT_COLS: u16 = 80;

/// Initial PTY geometry (the conventional 80x24); the frontend resizes on attach.
pub const DEFAULT_ROWS: u16 = 24;

/// What to spawn, and the size of its terminal.
#[derive(Debug)]
pub struct SpawnPlan {
    /// Program to launch; `None` means the user's default shell.
    pub program: Option<String>,
    pub cols: u16,
    pub rows: u16,
}

/// Why a PTY was not spawned.
#[derive(Debug)]
pub enum SpawnFailure {
    /// The task that was to spawn it did not finish.
    Task(String),
    /// Spawning failed.
    Pty(String),
}

/// Opens local-shell sessions backed by a pseudo-terminal.
#[derive(Debug, Clone, Copy, Default)]
pub struct LocalShellConnector;

impl LocalShellConnector {
    /// What to spawn for a profile. Only local-shell profiles can be opened.
    pub fn connect_shell(&self, profile: &ConnectionProfile) -> (r: Result<
        SpawnPlan,
        ProtocolError,
    >)
        ensures
            match profile.settings {
                ProtocolSettings::LocalShell { program } => r == Ok::<SpawnPlan, ProtocolError>(
                    SpawnPlan { program, cols: 80, rows: 24 },
                ),
                _ => r matches Err(ProtocolError::Connect(what)) && what@
                    == "LocalShellConnector cannot open a "@ + profile::kind_of(
                    profile@.settings,
                ).name_text() + " profile"@,
            },
    {
        match &profile.settings {
            ProtocolSettings::LocalShell { program } => Ok(
                SpawnPlan { program: program.clone(), cols: DEFAULT_COLS, rows: DEFAULT_ROWS },
            ),
            other => {
                let mut what = concat("LocalShellConnector cannot open a ", other.kind().name());
                what.append(" profile");
                Err(ProtocolError::Connect(what))
            },
        }
    }

    /// The session of a PTY that was to be spawned, or why there is none.
    pub fn spawned(outcome: Result<(), SpawnFailure>) -> (r: Result<LocalPtySession, ProtocolError>)
        ensures
            match outcome {
                Ok(_) => r matches Ok(session) && session.is_open(),
                Err(SpawnFailure::Task(why)) => r matches Err(ProtocolError::Connect(what)) && what@
                    == "pty spawn task failed: "@ + why@,
                Err(SpawnFailure::Pty(why)) => r matches Err(ProtocolError::Connect(what)) && what
                    == why,
            },
    {
        match outcome {
            Ok(_) => Ok(LocalPtySession { open: true }),
            Err(SpawnFailure::Task(why)) => Err(
                ProtocolError::Connect(concat("pty spawn task failed: ", why.as_str())),
            ),
            Err(SpawnFailure::Pty(why)) => Err(ProtocolError::Connect(why)),
        }
    }
}

/// What came of receiving from the PTY.
pub enum Reception {
    /// A chunk of output.
    Chunk(Vec<u8>),
    /// The reader is gone: clean EOF.
    Ended,
    /// The task that was to receive did not finish.
    TaskFailed(String),
}

/// A local shell attached to a PTY: whether output can still be received.
#[derive(Debug)]
pub struct LocalPtySession {
    open: bool,
}

impl LocalPtySession {
    /// Whether output can still be received.
    pub closed spec fn is_open(self) -> bool {
        self.open
    }

    /// Whether a read has to receive from the PTY. A session that is closed
    /// reports clean EOF rather than an error.
    pub fn wants_output(&self) -> (r: bool)
        ensures
            r == self.is_open(),
    {
        self.open
    }

    /// What a read returns for what was received. At the end of the output, and
    /// when receiving failed, the session is closed.
    pub fn read(&mut self, received: Reception) -> (r: Result<Vec<u8>, ProtocolError>)
        ensures
            if !old(self).is_open() {
                &&& !final(self).is_open()
                &&& r matches Ok(bytes)
                &&& bytes@ == Seq::<u8>::empty()
            } else {
                match received {
                    Reception::Chunk(chunk) => {
                        &&& final(self).is_open()
                        &&& r == Ok::<Vec<u8>, ProtocolError>(chunk)
                    },
                    Reception::Ended => {
                        &&& !final(self).is_open()
                        &&& r matches Ok(bytes)
                        &&& bytes@ == Seq::<u8>::empty()
                    },
                    Reception::TaskFailed(why) => {
                        &&& !final(self).is_open()
                        &&& r matches Err(ProtocolError::Channel(what))
                        &&& what@ == "pty read task failed: "@ + why@
                    },
                }
            },
    {
        if !self.open {
            return Ok(Vec::new());
        }
        match received {
            Reception::Chunk(chunk) => Ok(chunk),
            Reception::Ended => {
                self.open = false;
                Ok(Vec::new())
            },
            Reception::TaskFailed(why) => {
                self.open = false;
                Err(ProtocolError::Channel(concat("pty read task failed: ", why.as_str())))
            },
        }
    }

    /// What writing to the shell or resizing its terminal comes to.
    pub fn performed(outcome: Result<(), String>) -> (r: Result<(), ProtocolError>)
        ensures
            match outcome {
                Ok(_) => r is Ok,
                Err(why) => r == Err::<(), ProtocolError>(ProtocolError::Channel(why)),
            },
    {
        match outcome {
            Ok(_) => Ok(()),
            Err(why) => Err(ProtocolError::Channel(why)),
        }
    }

    /// Closes the session: nothing more is received.
    pub fn close(&mut self)
        ensures
            !final(self).is_open(),
    {
        self.open = false;
    }
}

} // verus!
