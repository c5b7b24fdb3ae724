//! Diagnostics for running containers: discovery of the services of a
//! deployment group, and the rules of the log and shell sessions that relay
//! between a spawned process and a socket.
//!
//! Everything here computes on plain values. Spawning processes and moving
//! bytes over sockets is left to the caller, who feeds the relays with events
//! and carries out the actions they return.

pub mod command;
pub mod discovery;
pub mod error;
pub mod frame;
pub mod identifier;
pub mod listing;
pub mod log_relay;
pub mod reference;
pub mod session;
pub mod shell_relay;
pub mod text;
