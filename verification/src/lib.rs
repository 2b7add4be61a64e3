//! A verified core for a small privileged helper daemon.
//!
//! The daemon tracks at most one supervised child process, can temporarily
//! override and later restore the system DNS servers, and answers a fixed
//! set of HTTP control requests with a uniform JSON envelope.  This crate
//! holds the daemon's decision logic and data model; the surrounding
//! process (sockets, command invocation, service registration) feeds it
//! plain values and carries out the actions it returns.

pub mod data;
pub mod dns;
pub mod json;
pub mod netsvc;
pub mod process;
pub mod router;
pub mod text;
