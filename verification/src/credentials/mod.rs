//! Secret storage.
//!
//! - [`secret::Secret`]: secret wrapper that is wiped on drop and never shows
//!   its value.
//! - [`backend::CredentialStore`]: what a backend offers.
//! - [`memory::MemoryCredentialStore`]: ephemeral default (no disk persistence).
//! - [`keyring_os::OsKeyringStore`]: entries and outcomes of the OS secret
//!   service.

pub mod backend;
pub mod error;
pub mod keyring_os;
pub mod memory;
pub mod secret;
