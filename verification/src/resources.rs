//! The networking resource owned by the bridge: the outbound queue, the
//! registry, and the connection state of this end.
//!
//! The complete absence of networking (offline play) is a supported,
//! non-fatal state: an embedding without this resource simply never runs
//! the handlers, and the simulation stays fully operable.

use vstd::prelude::*;

use crate::channel::OutboundQueue;
use crate::msg::NetAddr;
use crate::registry::{Player, Registry};

verus! {

/// Everything the protocol handlers share: one value, owned by the bridge
/// and passed by reference into the handlers each tick — no hidden global
/// state.
pub struct NetworkData {
    /// Whether this end is the authoritative server.
    pub is_server: bool,
    /// The bounded queue of outbound envelopes into the transport domain.
    pub outbound: OutboundQueue,
    /// Server side: the session table.  Empty on a client.
    pub registry: Registry,
    /// Client side: this end's own identity, once the server assigned one.
    /// `None` means the client is disconnected and will keep requesting.
    pub player_self: Option<Player>,
    /// Client side: when traffic from the server was last seen.
    pub server_last_keep_alive: u64,
    /// Client side: when a connection request was last sent; `None` before
    /// the first attempt.
    pub client_connection_tried_last: Option<u64>,
    /// When this end last emitted its keep-alives.
    pub keep_alive_sent_last: u64,
    /// The peer (server) address a client talks to.
    pub target_addr: NetAddr,
    /// The local address this end is bound to.
    pub local_addr: NetAddr,
}

impl NetworkData {
    pub open spec fn wf(&self) -> bool {
        self.registry.wf()
    }

    /// A fresh networking resource with nothing connected yet.
    pub fn new(is_server: bool, capacity: usize, target_addr: NetAddr, local_addr: NetAddr, now: u64) -> (r:
        NetworkData)
        ensures
            r.wf(),
            r.is_server == is_server,
            r.outbound@ == Seq::<crate::msg::PacketOutView>::empty(),
            r.outbound.cap() == capacity,
            r.registry.sessions() == Seq::<crate::registry::Session>::empty(),
            r.registry.issued() == Seq::<crate::ids::Uuid>::empty(),
            r.player_self is None,
            r.server_last_keep_alive == now,
            r.client_connection_tried_last is None,
            r.keep_alive_sent_last == now,
            r.target_addr == target_addr,
            r.local_addr == local_addr,
    {
        NetworkData {
            is_server,
            outbound: OutboundQueue::new(capacity),
            registry: Registry::new(),
            player_self: None,
            server_last_keep_alive: now,
            client_connection_tried_last: None,
            keep_alive_sent_last: now,
            target_addr,
            local_addr,
        }
    }
}

} // verus!
