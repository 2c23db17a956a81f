//! Terminal-side logic: output highlighting, alt-screen detection, and the
//! choice of a local shell.
//!
//! Full VT/xterm emulation is performed by the frontend's terminal widget;
//! these are the protocol-agnostic pieces.

pub mod altscreen;
pub mod error;
pub mod highlight;
pub mod pty;
