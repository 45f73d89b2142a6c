//! Protocol timing and sizing constants, shared by both ends.

use vstd::prelude::*;

verus! {

/// Largest datagram the unreliable transport will carry.
pub const UDP_BUF_SIZE: usize = 1432;

/// How often each side emits a keep-alive, in milliseconds.
pub const KEEP_ALIVE_INTERVAL_MS: u64 = 1000;

/// How long a session may stay silent before it is dropped, in
/// milliseconds: several multiples of the keep-alive interval.
pub const KEEP_ALIVE_MISSED_DROP_CONNECTION_MS: u64 = 5000;

/// The hard cap on messages one handler takes in one tick, so that network
/// volume can never stall the simulation.
pub const MAX_MESSAGES_PER_TICK: usize = 10000;

/// Capacity of the bridge channels between the simulation and transport
/// domains.
pub const CHANNEL_CAPACITY: usize = 16384;

} // verus!
