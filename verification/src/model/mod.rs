//! Domain models: connection profiles, groups, and runtime sessions.
//!
//! Design rule: **profiles and groups never contain secrets**. A profile only
//! holds a [`profile::CredentialRef`] pointing at an entry in the OS secret
//! store; the actual password / key material is resolved at connect time and
//! kept transient.

pub mod group;
pub mod profile;
pub mod session;
