//! Embedded-server framework, with the lifecycle of an HTTP file server and of a
//! minimal interval scheduler. Additional servers (TFTP/FTP/SSH/Telnet/NFS/VNC)
//! implement the same [`service::MiniServer`] trait.

pub mod any;
pub mod error;
pub mod http;
pub mod scheduler;
pub mod service;
