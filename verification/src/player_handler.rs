//! The player input handler: who decides intent is separated from who
//! computes the resulting state.
//!
//! A client collects local input for the entity it controls and, for every
//! entity it owns, sends an input message over the unreliable transport.
//! The server verifies that the sender owns the referenced entity — the one
//! authorization check in the protocol — and stores the intent for the
//! physics step, the sole writer of the resulting transform, which the
//! replication handler then republishes.  The client expresses intent, the
//! server simulates, the server republishes truth.

use vstd::prelude::*;

use crate::channel::{offered, offered_all, InboundReceiver};
use crate::codec::{dec_player_input, decode_player_input, enc_player_input, PlayerInputData};
use crate::components::{Movement, PlayerInput, PlayerInputFlags};
use crate::constants::{CHANNEL_CAPACITY, MAX_MESSAGES_PER_TICK};
use crate::ids::Uuid;
use crate::msg::{
    MessageType, MessageTypeView, NetworkPacketIn, NetworkPacketOut, NetworkProtocol,
    PacketInView, PacketOutView,
};
use crate::replication::{
    spec_apply_input, ReplicatedEntity, ReplicatedEntityView, ReplicationTable,
};
use crate::resources::NetworkData;

verus! {

/// The entities whose intent `self_id` decides.
pub open spec fn owned_pred(self_id: Uuid) -> spec_fn(ReplicatedEntityView) -> bool {
    |e: ReplicatedEntityView| e.owner_id == self_id
}

/// The input message a client sends for one entity it owns: the requested
/// orientation and keys, falling back to the current orientation and no
/// keys while nothing was requested this tick.
pub open spec fn input_packet(e: ReplicatedEntityView) -> PacketOutView {
    PacketOutView {
        net_id: e.net_id,
        message_type: MessageTypeView::PlayerInput,
        protocol: NetworkProtocol::UDP,
        data: enc_player_input(
            PlayerInputData {
                entity_id: e.net_id,
                rotation: match e.movement.req_rotation {
                    Some(q) => q,
                    None => e.transform.rot,
                },
                input: match e.movement.req_movement {
                    Some(f) => f,
                    None => PlayerInputFlags { bits: 0 },
                },
            },
        ),
    }
}

/// One input message per entity `self_id` owns, in table order.
pub open spec fn input_notices(s: Seq<ReplicatedEntityView>, self_id: Uuid) -> Seq<PacketOutView> {
    s.filter(owned_pred(self_id)).map(|_i: int, e: ReplicatedEntityView| input_packet(e))
}

/// The server's table after one inbound message: a decodable input intent
/// is stored onto the addressed entity when its sender owns it; everything
/// else — a malformed payload, a foreign entity, a sender that does not
/// own it — changes nothing.
pub open spec fn input_step(
    s: Seq<ReplicatedEntityView>,
    m: PacketInView,
) -> Seq<ReplicatedEntityView> {
    match m.message_type {
        MessageTypeView::PlayerInput => match dec_player_input(m.data) {
            Some(d) => spec_apply_input(s, m.client.client_id, d),
            None => s,
        },
        _ => s,
    }
}

/// The server's table after a run of inbound messages, oldest first.
pub open spec fn input_apply_all(
    s: Seq<ReplicatedEntityView>,
    msgs: Seq<PacketInView>,
) -> Seq<ReplicatedEntityView>
    decreases msgs.len(),
{
    if msgs.len() == 0 {
        s
    } else {
        input_apply_all(input_step(s, msgs[0]), msgs.drop_first())
    }
}

/// One more message after a run is one more step at the end.
pub proof fn lemma_input_apply_all_push(
    s: Seq<ReplicatedEntityView>,
    msgs: Seq<PacketInView>,
    m: PacketInView,
)
    ensures
        input_apply_all(s, msgs.push(m)) == input_step(input_apply_all(s, msgs), m),
    decreases msgs.len(),
{
    if msgs.len() == 0 {
        assert(msgs.push(m).drop_first() =~= msgs);
        assert(msgs.push(m)[0] == m);
        assert(input_apply_all(input_step(s, m), msgs) == input_step(s, m));
        assert(input_apply_all(s, msgs) == s);
    } else {
        assert(msgs.push(m).drop_first() =~= msgs.drop_first().push(m));
        assert(msgs.push(m)[0] == msgs[0]);
        assert(input_apply_all(s, msgs.push(m)) == input_apply_all(
            input_step(s, msgs[0]),
            msgs.drop_first().push(m),
        ));
        assert(input_apply_all(s, msgs) == input_apply_all(
            input_step(s, msgs[0]),
            msgs.drop_first(),
        ));
        lemma_input_apply_all_push(input_step(s, msgs[0]), msgs.drop_first(), m);
    }
}

/// One entity after this tick's locally collected input: entities carrying
/// the camera marker take the desired orientation and keys as their intent.
pub open spec fn spec_local_updated(e: ReplicatedEntityView, input: PlayerInput) -> ReplicatedEntityView {
    if e.has_camera {
        ReplicatedEntityView {
            movement: Movement {
                req_rotation: Some(input.rotation),
                req_movement: Some(input.flags),
                ..e.movement
            },
            ..e
        }
    } else {
        e
    }
}

/// A whole table after this tick's locally collected input.
pub open spec fn spec_apply_local_input(
    s: Seq<ReplicatedEntityView>,
    input: PlayerInput,
) -> Seq<ReplicatedEntityView> {
    s.map(|_i: int, e: ReplicatedEntityView| spec_local_updated(e, input))
}

/// Records the input collected on this tick — the held keys and the
/// absolute desired orientation — as the intent of every entity carrying
/// the camera marker, for the send path to pick up.
pub fn apply_local_input(table: &mut ReplicationTable, input: PlayerInput)
    requires
        old(table).wf(),
    ensures
        final(table).wf(),
        final(table)@ == spec_apply_local_input(old(table)@, input),
{
    let mut i: usize = 0;
    let n = table.len();
    while i < n
        invariant
            table.wf(),
            n == table@.len(),
            table@.len() == old(table)@.len(),
            i <= n,
            forall|k: int|
                0 <= k < i ==> #[trigger] table@[k] == spec_local_updated(old(table)@[k], input),
            forall|k: int| i <= k < table@.len() ==> #[trigger] table@[k] == old(table)@[k],
        decreases n - i,
    {
        let e = table.entity_at(i);
        if e.camera.is_some() {
            let rep = crate::components::NetworkReplicated {
                net_id: e.replicated.net_id,
                owner_id: e.replicated.owner_id,
                entity_type: crate::codec::copy_bytes(&e.replicated.entity_type),
            };
            let updated = ReplicatedEntity {
                replicated: rep,
                transform: e.transform,
                movement: Movement {
                    req_rotation: Some(input.rotation),
                    req_movement: Some(input.flags),
                    max_jumps: e.movement.max_jumps,
                    num_jumps_remaining: e.movement.num_jumps_remaining,
                },
                camera: e.camera,
            };
            proof {
                assert(updated@ == spec_local_updated(table@[i as int], input));
            }
            table.replace_at(i, updated);
        }
        i = i + 1;
    }
}

/// The per-tick player input handler.
pub struct PlayerHandler {
    receiver: InboundReceiver,
}

impl Default for PlayerHandler {
    /// A handler with an empty inbox of the standard capacity.
    fn default() -> (r: Self)
        ensures
            r.inbox() == Seq::<PacketInView>::empty(),
            r.inbox_cap() == CHANNEL_CAPACITY,
    {
        PlayerHandler { receiver: InboundReceiver::new(CHANNEL_CAPACITY) }
    }
}

impl PlayerHandler {
    /// What the handler has buffered and not yet processed.
    pub closed spec fn inbox(&self) -> Seq<PacketInView> {
        self.receiver@
    }

    pub closed spec fn inbox_cap(&self) -> nat {
        self.receiver.cap()
    }

    pub fn new(capacity: usize) -> (r: Self)
        ensures
            r.inbox() == Seq::<PacketInView>::empty(),
            r.inbox_cap() == capacity,
    {
        PlayerHandler { receiver: InboundReceiver::new(capacity) }
    }

    /// Fan-out delivery of one inbound envelope into this handler's own
    /// buffer; never blocks, drops the message when the buffer is full.
    pub fn offer(&mut self, p: NetworkPacketIn) -> (r: Result<(), crate::channel::ChannelError>)
        ensures
            final(self).inbox_cap() == old(self).inbox_cap(),
            final(self).inbox() == offered(old(self).inbox(), p@, old(self).inbox_cap()),
            r is Ok <==> old(self).inbox().len() < old(self).inbox_cap(),
    {
        self.receiver.offer(p)
    }

    /// One tick of the player input handler.
    ///
    /// On the server the drained messages are applied in arrival order:
    /// each decodable intent whose sender owns the addressed entity is
    /// stored; any other is discarded without mutating anything.  On a
    /// connected client one input message per owned entity is offered to
    /// the outbound queue, in table order; a disconnected client sends
    /// nothing.
    pub fn run(&mut self, net: &mut NetworkData, table: &mut ReplicationTable)
        requires
            old(net).wf(),
            old(table).wf(),
        ensures
            final(net).wf(),
            final(table).wf(),
            final(net).is_server == old(net).is_server,
            final(net).registry == old(net).registry,
            final(net).player_self == old(net).player_self,
            final(net).outbound.cap() == old(net).outbound.cap(),
            final(self).inbox_cap() == old(self).inbox_cap(),
            final(self).inbox() == old(self).inbox().skip(
                if old(self).inbox().len() <= MAX_MESSAGES_PER_TICK {
                    old(self).inbox().len() as int
                } else {
                    MAX_MESSAGES_PER_TICK as int
                },
            ),
            old(net).is_server ==> final(net).outbound@ == old(net).outbound@ && final(table)@
                == input_apply_all(
                old(table)@,
                old(self).inbox().take(
                    if old(self).inbox().len() <= MAX_MESSAGES_PER_TICK {
                        old(self).inbox().len() as int
                    } else {
                        MAX_MESSAGES_PER_TICK as int
                    },
                ),
            ),
            !old(net).is_server ==> final(table)@ == old(table)@ && (match old(net).player_self {
                Some(p) => final(net).outbound@ == offered_all(
                    old(net).outbound@,
                    input_notices(old(table)@, p.client_id),
                    old(net).outbound.cap(),
                ),
                None => final(net).outbound@ == old(net).outbound@,
            }),
    {
        let msgs = self.receiver.drain(MAX_MESSAGES_PER_TICK);
        let ghost drained = old(self).inbox().take(msgs@.len() as int);
        if net.is_server {
            proof {
                assert(input_apply_all(old(table)@, drained.take(0)) == old(table)@);
                assert(drained.take(0) =~= Seq::<PacketInView>::empty());
            }
            let mut k: usize = 0;
            while k < msgs.len()
                invariant
                    table.wf(),
                    net.wf(),
                    net.is_server == old(net).is_server,
                    net.is_server,
                    net.registry == old(net).registry,
                    net.player_self == old(net).player_self,
                    net.outbound@ == old(net).outbound@,
                    net.outbound.cap() == old(net).outbound.cap(),
                    k <= msgs@.len(),
                    crate::channel::in_views(msgs@) == drained,
                    table@ == input_apply_all(old(table)@, drained.take(k as int)),
                decreases msgs@.len() - k,
            {
                let m = &msgs[k];
                let ghost tbefore = table@;
                match &m.message_type {
                    MessageType::PlayerInput => {
                        match decode_player_input(m.data.as_slice()) {
                            Ok(d) => {
                                let _ = table.apply_player_input(m.client.client_id, d);
                            },
                            Err(_) => {},
                        }
                    },
                    _ => {},
                }
                proof {
                    assert(drained[k as int] == m@);
                    assert(table@ == input_step(tbefore, m@));
                    lemma_input_apply_all_push(old(table)@, drained.take(k as int), drained[k as int]);
                    assert(drained.take(k + 1) =~= drained.take(k as int).push(drained[k as int]));
                }
                k = k + 1;
            }
            proof {
                assert(drained.take(msgs@.len() as int) =~= drained);
            }
        } else {
            let self_id = match &net.player_self {
                Some(p) => p.client_id,
                None => {
                    return ;
                },
            };
            let ghost cap = net.outbound.cap();
            proof {
                assert(old(table)@.take(0).filter(owned_pred(self_id)) =~= Seq::<
                    ReplicatedEntityView,
                >::empty());
                assert(input_notices(old(table)@.take(0), self_id) =~= Seq::<
                    PacketOutView,
                >::empty());
                assert(offered_all(net.outbound@, Seq::<PacketOutView>::empty(), cap)
                    == net.outbound@);
            }
            let n = table.len();
            let mut k: usize = 0;
            while k < n
                invariant
                    table.wf(),
                    net.wf(),
                    net.is_server == old(net).is_server,
                    net.registry == old(net).registry,
                    net.player_self == old(net).player_self,
                    match old(net).player_self {
                        Some(p) => p.client_id == self_id,
                        None => false,
                    },
                    table@ == old(table)@,
                    n == table@.len(),
                    k <= n,
                    net.outbound.cap() == cap,
                    cap == old(net).outbound.cap(),
                    net.outbound@ == offered_all(
                        old(net).outbound@,
                        input_notices(table@.take(k as int), self_id),
                        cap,
                    ),
                decreases n - k,
            {
                let e = table.entity_at(k);
                let ghost t0 = table@.take(k as int);
                let ghost t1 = table@.take(k + 1);
                proof {
                    assert(t1.drop_last() =~= t0);
                    assert(t1.last() == table@[k as int]);
                }
                if e.replicated.owner_id.bits == self_id.bits {
                    let rotation = match &e.movement.req_rotation {
                        Some(q) => *q,
                        None => e.transform.rot,
                    };
                    let flags = match &e.movement.req_movement {
                        Some(f) => *f,
                        None => PlayerInputFlags { bits: 0 },
                    };
                    let d = PlayerInputData {
                        entity_id: e.replicated.net_id,
                        rotation,
                        input: flags,
                    };
                    let data = crate::codec::encode_player_input(&d);
                    let pkt = NetworkPacketOut {
                        net_id: e.replicated.net_id,
                        message_type: MessageType::PlayerInput,
                        protocol: NetworkProtocol::UDP,
                        data,
                    };
                    proof {
                        assert(pkt@ == input_packet(table@[k as int]));
                        reveal(Seq::filter);
                        assert(t1.filter(owned_pred(self_id)) == t0.filter(owned_pred(self_id)).push(
                            table@[k as int],
                        ));
                        assert(input_notices(t1, self_id) =~= input_notices(t0, self_id).push(
                            input_packet(table@[k as int]),
                        ));
                        crate::channel::lemma_offered_all_push(
                            old(net).outbound@,
                            input_notices(t0, self_id),
                            input_packet(table@[k as int]),
                            cap,
                        );
                    }
                    let _ = net.outbound.try_send(pkt);
                } else {
                    proof {
                        reveal(Seq::filter);
                        assert(t1.filter(owned_pred(self_id)) == t0.filter(owned_pred(self_id)));
                        assert(input_notices(t1, self_id) =~= input_notices(t0, self_id));
                    }
                }
                k = k + 1;
            }
            proof {
                assert(table@.take(n as int) =~= table@);
            }
        }
    }
}

} // verus!
