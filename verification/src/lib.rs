//! A file service over QUIC: the command protocol, the per-connection
//! session state, the command handlers, the client shell's input handling
//! and the user store.
use vstd::prelude::*;

pub mod admin;
pub mod config;
pub mod framing;
pub mod handler;
pub mod path;
pub mod protocol;
pub mod session;
pub mod shell;
pub mod text;
pub mod user;

verus! {
} // verus!
