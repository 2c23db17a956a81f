//! Protocol-agnostic connection and SFTP abstractions, a fake SSH transport, and
//! the decisions of the local-shell transport.

pub mod error;
pub mod local;
pub mod mock;
pub mod russh_impl;
pub mod traits;
