//! Core of the Nexterm remote session manager.
//!
//! Everything here is free of I/O: connection profiles, session bookkeeping,
//! credential handling, terminal-output analysis, SSH tunnel bookkeeping, the
//! SOCKS5 wire format and the orchestration that connects a profile. Where an
//! operation needs the outside world, it goes through a trait, or is written as a
//! step function: it says what to do next and is told what came of it.

pub mod cli;
pub mod config;
pub mod credentials;
pub mod error;
pub mod event;
pub mod ids;
pub mod miniservers;
pub mod model;
pub mod net;
pub mod pattern;
pub mod platform;
pub mod protocols;
pub mod registry;
pub mod store;
pub mod table;
pub mod tasks;
pub mod terminal;
pub mod text;
pub mod tunnels;
pub mod ui;
