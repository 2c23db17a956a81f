//! Application logic shared by all frontends: the facade, multi-exec, macros,
//! edit-conflict detection and command-safety helpers.

pub mod app;
pub mod conflict;
pub mod macros;
pub mod multiexec;
pub mod safety;
