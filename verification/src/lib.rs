//! A sleeping proxy for a game server.
//!
//! While the real server is stopped, the proxy answers status, ping and login
//! handshakes in its place, and decides from connection activity and from the
//! player count when the real server is started and stopped. This crate holds
//! the wire codec, the per-connection state machine and the lifecycle
//! controller as functions on plain values: sockets, timers and the child
//! process belong to the program around it.

pub mod activity;
pub mod codec;
pub mod controller;
pub mod error;
pub mod handler;
pub mod json;
pub mod mc_protocol;
pub mod varints;
pub mod whitelist;
