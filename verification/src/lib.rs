//! Client-server state replication for a real-time simulation.
//!
//! The crate keeps a subset of entity state (transforms, player input
//! intent, spawn events) synchronized between one authoritative server and
//! several clients over an unreliable network, without ever stalling the
//! simulation's fixed-rate tick loop.  It holds the message catalogue and
//! its canonical binary codec, the bounded bridge channels between the
//! transport and simulation domains, the connection registry with its
//! handshake and keep-alive state machine, and the three per-tick protocol
//! handlers (connection, replication, player input).  Socket I/O itself is
//! left to the embedding program: the library consumes and produces plain
//! envelopes.

pub mod channel;
pub mod codec;
pub mod components;
pub mod connection;
pub mod constants;
pub mod generic_handler;
pub mod ids;
pub mod msg;
pub mod player_handler;
pub mod registry;
pub mod replication;
pub mod resources;
pub mod transport;
