//! The replication handler for generic replicated components: it turns
//! transform state into network messages and back.
//!
//! Server, once per tick: the current transform of every replicated entity
//! is broadcast over the unreliable transport, tagged by `net_id`.
//! Delivery is best effort; a missed or reordered update is superseded by
//! the next one.  Client: inbound transform updates overwrite the local
//! transform of entities the client does not own — the most recently
//! processed wins — and spawn notices attach local placeholder entities.
//! The server never trusts clients with transforms or spawns: inbound
//! messages of either kind are ignored there.

use vstd::prelude::*;

use crate::channel::{offered, offered_all, InboundReceiver};
use crate::codec::{
    dec_new_replicated, dec_transform_message, decode_new_replicated, decode_transform_message,
    enc_transform_message, NewReplicatedDataView, TransformMessage,
};
use crate::components::{Movement, NetworkReplicated, Transform};
use crate::constants::{CHANNEL_CAPACITY, MAX_MESSAGES_PER_TICK};
use crate::ids::Uuid;
use crate::msg::{
    MessageTypeView, NetworkPacketIn, NetworkPacketOut, NetworkProtocol, PacketInView,
    PacketOutView,
};
use crate::replication::{
    seq_has_net_id, spec_apply_transform, ReplicatedEntity, ReplicatedEntityView,
    ReplicationTable,
};
use crate::resources::NetworkData;

verus! {

/// The identity a client acts under: its assigned one, or nil before any
/// was assigned.
pub open spec fn self_id_of(net: NetworkData) -> Uuid {
    match net.player_self {
        Some(p) => p.client_id,
        None => Uuid::nil_id(),
    }
}

/// The placeholder a client attaches for a remotely spawned entity: the
/// advertised identity, owner and kind, at rest until updates arrive.
pub open spec fn placeholder_entity(d: NewReplicatedDataView) -> ReplicatedEntityView {
    ReplicatedEntityView {
        net_id: d.entity_id,
        owner_id: d.owner_id,
        entity_type: d.entity_type,
        transform: Transform::identity(),
        movement: Movement::initial(),
        has_camera: false,
    }
}

/// A client's table after one inbound message.  Transform updates overwrite
/// non-owned entities; spawn notices attach a placeholder when the identity
/// is new here and not nil; everything else — a malformed payload included —
/// changes nothing.
pub open spec fn repl_step(
    s: Seq<ReplicatedEntityView>,
    m: PacketInView,
    self_id: Uuid,
) -> Seq<ReplicatedEntityView> {
    match m.message_type {
        MessageTypeView::ComponentTransform => match dec_transform_message(m.data) {
            Some(tm) => spec_apply_transform(s, tm.component_id, tm.transform, self_id),
            None => s,
        },
        MessageTypeView::NewReplicated => match dec_new_replicated(m.data) {
            Some(d) => if d.entity_id != Uuid::nil_id() && !seq_has_net_id(s, d.entity_id) {
                s.push(placeholder_entity(d))
            } else {
                s
            },
            None => s,
        },
        _ => s,
    }
}

/// A client's table after a run of inbound messages, oldest first: the most
/// recently processed update wins.
pub open spec fn repl_apply_all(
    s: Seq<ReplicatedEntityView>,
    msgs: Seq<PacketInView>,
    self_id: Uuid,
) -> Seq<ReplicatedEntityView>
    decreases msgs.len(),
{
    if msgs.len() == 0 {
        s
    } else {
        repl_apply_all(repl_step(s, msgs[0], self_id), msgs.drop_first(), self_id)
    }
}

/// One more message after a run is one more step at the end.
pub proof fn lemma_repl_apply_all_push(
    s: Seq<ReplicatedEntityView>,
    msgs: Seq<PacketInView>,
    m: PacketInView,
    self_id: Uuid,
)
    ensures
        repl_apply_all(s, msgs.push(m), self_id) == repl_step(
            repl_apply_all(s, msgs, self_id),
            m,
            self_id,
        ),
    decreases msgs.len(),
{
    if msgs.len() == 0 {
        assert(msgs.push(m).drop_first() =~= msgs);
        assert(msgs.push(m)[0] == m);
        assert(repl_apply_all(repl_step(s, m, self_id), msgs, self_id) == repl_step(
            s,
            m,
            self_id,
        ));
        assert(repl_apply_all(s, msgs, self_id) == s);
    } else {
        assert(msgs.push(m).drop_first() =~= msgs.drop_first().push(m));
        assert(msgs.push(m)[0] == msgs[0]);
        assert(repl_apply_all(s, msgs.push(m), self_id) == repl_apply_all(
            repl_step(s, msgs[0], self_id),
            msgs.drop_first().push(m),
            self_id,
        ));
        assert(repl_apply_all(s, msgs, self_id) == repl_apply_all(
            repl_step(s, msgs[0], self_id),
            msgs.drop_first(),
            self_id,
        ));
        lemma_repl_apply_all_push(repl_step(s, msgs[0], self_id), msgs.drop_first(), m, self_id);
    }
}

/// The once-per-tick transform broadcast for one entity: best-effort, over
/// the unreliable transport, addressed to every registered client.
pub open spec fn transform_packet(e: ReplicatedEntityView) -> PacketOutView {
    PacketOutView {
        net_id: Uuid::nil_id(),
        message_type: MessageTypeView::ComponentTransform,
        protocol: NetworkProtocol::UDP,
        data: enc_transform_message(
            TransformMessage { component_id: e.net_id, transform: e.transform },
        ),
    }
}

/// One transform broadcast per table entry, in table order.
pub open spec fn transform_notices(s: Seq<ReplicatedEntityView>) -> Seq<PacketOutView> {
    s.map(|_i: int, e: ReplicatedEntityView| transform_packet(e))
}

/// The spawn notice broadcast to every registered client when a replicated
/// entity is created.
pub open spec fn new_replicated_packet(
    owner_id: Uuid,
    entity_id: Uuid,
    entity_type: Seq<u8>,
) -> PacketOutView {
    PacketOutView {
        net_id: Uuid::nil_id(),
        message_type: MessageTypeView::NewReplicated,
        protocol: NetworkProtocol::TCP,
        data: crate::codec::enc_new_replicated(
            crate::codec::NewReplicatedDataView { owner_id, entity_id, entity_type },
        ),
    }
}

/// Creates a replicated entity on the server: a fresh `net_id` — never
/// issued before, for a client or an entity, in this server's lifetime — is
/// allocated, the entity enters the table, and a spawn notice is broadcast
/// to every registered client over the reliable transport.  `None` only
/// when no unissued identity was found among the bounded draws; nothing
/// changes then.
///
/// The owner must resolve to a currently-registered client or, as nil, to
/// the server: no entity may enter the table under an owner whose removal
/// could never sweep it away.
pub fn server_spawn_replicated(
    net: &mut NetworkData,
    table: &mut ReplicationTable,
    owner_id: Uuid,
    entity_type: Vec<u8>,
    transform: Transform,
) -> (r: Option<Uuid>)
    requires
        old(net).wf(),
        old(table).wf(),
        entity_type@.len() <= u32::MAX,
        owner_id == Uuid::nil_id() || old(net).registry.has_id(owner_id),
    ensures
        final(net).wf(),
        final(table).wf(),
        final(net).is_server == old(net).is_server,
        final(net).player_self == old(net).player_self,
        final(net).outbound.cap() == old(net).outbound.cap(),
        match r {
            Some(id) => {
                &&& !old(net).registry.was_issued(id)
                &&& id != Uuid::nil_id()
                &&& final(net).registry.sessions() == old(net).registry.sessions()
                &&& final(net).registry.issued() == old(net).registry.issued().push(id)
                &&& final(table)@ == old(table)@.push(
                    (ReplicatedEntityView {
                        net_id: id,
                        owner_id,
                        entity_type: entity_type@,
                        transform,
                        movement: Movement::initial(),
                        has_camera: false,
                    }),
                )
                &&& final(net).outbound@ == offered(
                    old(net).outbound@,
                    new_replicated_packet(owner_id, id, entity_type@),
                    old(net).outbound.cap(),
                )
            },
            None => final(net).registry == old(net).registry && final(table)@ == old(table)@
                && final(net).outbound@ == old(net).outbound@,
        },
{
    match crate::connection::draw_fresh_id(&net.registry) {
        None => None,
        Some(id) => {
            if table.contains_net_id(id) {
                return None;
            }
            let data = crate::codec::encode_new_replicated(
                &crate::codec::NewReplicatedData {
                    owner_id,
                    entity_id: id,
                    entity_type: crate::codec::copy_bytes(&entity_type),
                },
            );
            let notice = NetworkPacketOut {
                net_id: Uuid { bits: 0 },
                message_type: crate::msg::MessageType::NewReplicated,
                protocol: NetworkProtocol::TCP,
                data,
            };
            net.registry.record_issued(id);
            table.spawn(
                ReplicatedEntity {
                    replicated: NetworkReplicated { net_id: id, owner_id, entity_type },
                    transform,
                    movement: Movement::default(),
                    camera: None,
                },
            );
            let _ = net.outbound.try_send(notice);
            Some(id)
        },
    }
}

/// The per-tick replication handler.
pub struct GenericHandler {
    receiver: InboundReceiver,
}

impl Default for GenericHandler {
    /// A handler with an empty inbox of the standard capacity.
    fn default() -> (r: Self)
        ensures
            r.inbox() == Seq::<PacketInView>::empty(),
            r.inbox_cap() == CHANNEL_CAPACITY,
    {
        GenericHandler { receiver: InboundReceiver::new(CHANNEL_CAPACITY) }
    }
}

impl GenericHandler {
    /// What the handler has buffered and not yet processed.
    pub closed spec fn inbox(&self) -> Seq<PacketInView> {
        self.receiver@
    }

    pub closed spec fn inbox_cap(&self) -> nat {
        self.receiver.cap()
    }

    pub fn new(capacity: usize) -> (r: Self)
        ensures
            r.inbox() == Seq::<PacketInView>::empty(),
            r.inbox_cap() == capacity,
    {
        GenericHandler { receiver: InboundReceiver::new(capacity) }
    }

    /// Fan-out delivery of one inbound envelope into this handler's own
    /// buffer; never blocks, drops the message when the buffer is full.
    pub fn offer(&mut self, p: NetworkPacketIn) -> (r: Result<(), crate::channel::ChannelError>)
        ensures
            final(self).inbox_cap() == old(self).inbox_cap(),
            final(self).inbox() == offered(old(self).inbox(), p@, old(self).inbox_cap()),
            r is Ok <==> old(self).inbox().len() < old(self).inbox_cap(),
    {
        self.receiver.offer(p)
    }

    /// One tick of the replication handler.
    ///
    /// On the server the drained messages are ignored — the server never
    /// trusts clients with transforms or spawns — and one transform
    /// broadcast per table entry is offered to the outbound queue, in table
    /// order.  On a client the drained messages are applied to the table in
    /// arrival order, so the most recently processed update wins.
    pub fn run(&mut self, net: &mut NetworkData, table: &mut ReplicationTable)
        requires
            old(net).wf(),
            old(table).wf(),
        ensures
            final(net).wf(),
            final(table).wf(),
            final(net).is_server == old(net).is_server,
            final(net).outbound.cap() == old(net).outbound.cap(),
            final(net).registry == old(net).registry,
            final(net).player_self == old(net).player_self,
            final(self).inbox_cap() == old(self).inbox_cap(),
            final(self).inbox() == old(self).inbox().skip(
                if old(self).inbox().len() <= MAX_MESSAGES_PER_TICK {
                    old(self).inbox().len() as int
                } else {
                    MAX_MESSAGES_PER_TICK as int
                },
            ),
            old(net).is_server ==> final(table)@ == old(table)@ && final(net).outbound@
                == offered_all(
                old(net).outbound@,
                transform_notices(old(table)@),
                old(net).outbound.cap(),
            ),
            !old(net).is_server ==> final(net).outbound@ == old(net).outbound@ && final(table)@
                == repl_apply_all(
                old(table)@,
                old(self).inbox().take(
                    if old(self).inbox().len() <= MAX_MESSAGES_PER_TICK {
                        old(self).inbox().len() as int
                    } else {
                        MAX_MESSAGES_PER_TICK as int
                    },
                ),
                self_id_of(*old(net)),
            ),
    {
        let msgs = self.receiver.drain(MAX_MESSAGES_PER_TICK);
        let ghost drained = old(self).inbox().take(msgs@.len() as int);
        if net.is_server {
            let ghost cap = net.outbound.cap();
            proof {
                assert(transform_notices(table@.take(0)) =~= Seq::<PacketOutView>::empty());
                assert(offered_all(
                    net.outbound@,
                    Seq::<PacketOutView>::empty(),
                    cap,
                ) == net.outbound@);
            }
            let n = table.len();
            let mut k: usize = 0;
            while k < n
                invariant
                    table.wf(),
                    net.wf(),
                    net.is_server == old(net).is_server,
                    net.registry == old(net).registry,
                    net.player_self == old(net).player_self,
                    table@ == old(table)@,
                    n == table@.len(),
                    k <= n,
                    net.outbound.cap() == cap,
                    cap == old(net).outbound.cap(),
                    net.outbound@ == offered_all(
                        old(net).outbound@,
                        transform_notices(table@.take(k as int)),
                        cap,
                    ),
                decreases n - k,
            {
                let e = table.entity_at(k);
                let data = crate::codec::encode_transform_message(
                    &TransformMessage { component_id: e.replicated.net_id, transform: e.transform },
                );
                let pkt = NetworkPacketOut {
                    net_id: Uuid { bits: 0 },
                    message_type: crate::msg::MessageType::ComponentTransform,
                    protocol: NetworkProtocol::UDP,
                    data,
                };
                proof {
                    assert(pkt@ == transform_packet(table@[k as int]));
                    crate::channel::lemma_offered_all_push(
                        old(net).outbound@,
                        transform_notices(table@.take(k as int)),
                        transform_packet(table@[k as int]),
                        cap,
                    );
                    assert(transform_notices(table@.take(k + 1)) =~= transform_notices(
                        table@.take(k as int),
                    ).push(transform_packet(table@[k as int])));
                }
                let _ = net.outbound.try_send(pkt);
                k = k + 1;
            }
            proof {
                assert(table@.take(n as int) =~= table@);
            }
        } else {
            let ghost self_id = self_id_of(*net);
            let sid = match &net.player_self {
                Some(p) => p.client_id,
                None => Uuid { bits: 0 },
            };
            proof {
                assert(repl_apply_all(old(table)@, drained.take(0), self_id) == old(table)@);
                assert(drained.take(0) =~= Seq::<PacketInView>::empty());
            }
            let mut k: usize = 0;
            while k < msgs.len()
                invariant
                    table.wf(),
                    net.wf(),
                    net.is_server == old(net).is_server,
                    !net.is_server,
                    net.registry == old(net).registry,
                    net.player_self == old(net).player_self,
                    net.outbound@ == old(net).outbound@,
                    net.outbound.cap() == old(net).outbound.cap(),
                    k <= msgs@.len(),
                    sid == self_id,
                    self_id == self_id_of(*old(net)),
                    crate::channel::in_views(msgs@) == drained,
                    table@ == repl_apply_all(old(table)@, drained.take(k as int), self_id),
                decreases msgs@.len() - k,
            {
                let m = &msgs[k];
                let ghost tbefore = table@;
                match &m.message_type {
                    crate::msg::MessageType::ComponentTransform => {
                        match decode_transform_message(m.data.as_slice()) {
                            Ok(tm) => {
                                table.apply_transform_update(tm.component_id, tm.transform, sid);
                            },
                            Err(_) => {},
                        }
                    },
                    crate::msg::MessageType::NewReplicated => {
                        match decode_new_replicated(m.data.as_slice()) {
                            Ok(d) => {
                                if !d.entity_id.is_nil() && !table.contains_net_id(d.entity_id) {
                                    let entity = ReplicatedEntity {
                                        replicated: NetworkReplicated {
                                            net_id: d.entity_id,
                                            owner_id: d.owner_id,
                                            entity_type: d.entity_type,
                                        },
                                        transform: Transform::default(),
                                        movement: Movement::default(),
                                        camera: None,
                                    };
                                    proof {
                                        assert(entity@ == placeholder_entity(d@));
                                    }
                                    table.spawn(entity);
                                }
                            },
                            Err(_) => {},
                        }
                    },
                    _ => {},
                }
                proof {
                    assert(drained[k as int] == m@);
                    assert(table@ == repl_step(tbefore, m@, self_id));
                    lemma_repl_apply_all_push(
                        old(table)@,
                        drained.take(k as int),
                        drained[k as int],
                        self_id,
                    );
                    assert(drained.take(k + 1) =~= drained.take(k as int).push(
                        drained[k as int],
                    ));
                }
                k = k + 1;
            }
            proof {
                assert(drained.take(msgs@.len() as int) =~= drained);
            }
        }
    }
}

} // verus!
