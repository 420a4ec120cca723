//! The decision core of a TCP port forwarder.
//!
//! A forwarder listens on local addresses and, for each connection it
//! accepts, connects to a configured target and relays bytes both ways until
//! either side closes. This library holds everything about that which is
//! not I/O, as state machines that a driver feeds with what its sockets did:
//!
//! - [`connections`]: the registry of connection records and identifiers;
//! - [`relay`]: one direction of one connection, and its byte counter;
//! - [`buffer`]: the chunk buffer that a relay reads into and writes from;
//! - [`flow`]: one connection, from the whitelist check to its end;
//! - [`listener`]: the accept loop of one forwarding rule;
//! - [`manager`]: the forwarder as a whole, started once and stopped once;
//! - [`token`]: the cancellation tokens that flows and manager hand out;
//! - [`config`] and [`json`]: the rules, and reading them from JSON;
//! - [`commands`]: the operator's command line and prompt.

pub mod buffer;
pub mod commands;
pub mod config;
pub mod connections;
pub mod flow;
pub mod json;
pub mod listener;
pub mod manager;
pub mod relay;
pub mod token;
