//! SSH port forwarding: tunnel definitions, their bookkeeping, and the SOCKS5
//! conversation of a dynamic forward.

pub mod driver;
pub mod dynamic;
pub mod error;
pub mod manager;
pub mod socks5;
