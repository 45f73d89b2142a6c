//! The connection handler: the handshake and keep-alive state machine.
//!
//! Client states: disconnected (no assigned identity) → connecting (request
//! sent, awaiting the accept) → connected.  The server side accepts
//! requests, assigns fresh identities, keeps sessions alive, and drops the
//! silent ones together with everything they own.

use vstd::prelude::*;

use crate::channel::{offered, offered_all, InboundReceiver, OutboundQueue};
use crate::codec::{
    dec_connection_accept, decode_connection_accept, enc_connection_accept, enc_new_client,
    encode_connection_accept, encode_new_client, ConnectionAcceptData, NewClientData,
    NewClientDataView,
};
use crate::constants::{
    CHANNEL_CAPACITY, KEEP_ALIVE_INTERVAL_MS, KEEP_ALIVE_MISSED_DROP_CONNECTION_MS,
    MAX_MESSAGES_PER_TICK,
};
use crate::ids::{random_uuid_bits, Uuid};
use crate::msg::{
    MessageType, MessageTypeView, NetAddr, NetworkPacketIn, NetworkPacketOut, NetworkProtocol,
    PacketInView, PacketOutView,
};
use crate::registry::{
    keep_pred, seq_has_addr, session_ids, spec_expired, touched_sessions, Player, Registry,
    Session,
};
use crate::replication::ReplicationTable;
use crate::resources::NetworkData;

verus! {

/// How many random draws a handshake will try before giving up on finding
/// an identity that was never issued (collisions are all but impossible;
/// the requester simply retries on the next request).
pub const ID_DRAW_ATTEMPTS: usize = 64;

/// The accept reply: addressed to the requester alone, carrying the
/// identity it was assigned.
pub open spec fn accept_packet(id: Uuid) -> PacketOutView {
    PacketOutView {
        net_id: id,
        message_type: MessageTypeView::ConnectionAccept,
        protocol: NetworkProtocol::TCP,
        data: enc_connection_accept(ConnectionAcceptData { uuid: id }),
    }
}

/// The new-client notice sent to one already-registered client.  The
/// display name is not used yet and stays empty.
pub open spec fn new_client_packet(to: Uuid, new_id: Uuid) -> PacketOutView {
    PacketOutView {
        net_id: to,
        message_type: MessageTypeView::NewClient,
        protocol: NetworkProtocol::TCP,
        data: enc_new_client(NewClientDataView { name: Seq::empty(), uuid: new_id }),
    }
}

/// One new-client notice per already-registered session, in table order.
pub open spec fn new_client_notices(sessions: Seq<Session>, new_id: Uuid) -> Seq<PacketOutView> {
    sessions.map(|_i: int, s: Session| new_client_packet(s.player.client_id, new_id))
}

/// A keep-alive, carrying no payload.
pub open spec fn keep_alive_packet(to: Uuid) -> PacketOutView {
    PacketOutView {
        net_id: to,
        message_type: MessageTypeView::ConnectionKeepAlive,
        protocol: NetworkProtocol::TCP,
        data: Seq::empty(),
    }
}

/// The connection request a disconnected client sends, carrying no payload.
pub open spec fn connection_request_packet() -> PacketOutView {
    PacketOutView {
        net_id: Uuid::nil_id(),
        message_type: MessageTypeView::ConnectionRequest,
        protocol: NetworkProtocol::TCP,
        data: Seq::empty(),
    }
}

pub fn make_accept_packet(id: Uuid) -> (r: NetworkPacketOut)
    ensures
        r@ == accept_packet(id),
{
    let data = encode_connection_accept(&ConnectionAcceptData { uuid: id });
    NetworkPacketOut {
        net_id: id,
        message_type: MessageType::ConnectionAccept,
        protocol: NetworkProtocol::TCP,
        data,
    }
}

pub fn make_new_client_packet(to: Uuid, new_id: Uuid) -> (r: NetworkPacketOut)
    ensures
        r@ == new_client_packet(to, new_id),
{
    let data = encode_new_client(&NewClientData { name: Vec::new(), uuid: new_id });
    NetworkPacketOut {
        net_id: to,
        message_type: MessageType::NewClient,
        protocol: NetworkProtocol::TCP,
        data,
    }
}

pub fn make_keep_alive_packet(to: Uuid) -> (r: NetworkPacketOut)
    ensures
        r@ == keep_alive_packet(to),
{
    NetworkPacketOut {
        net_id: to,
        message_type: MessageType::ConnectionKeepAlive,
        protocol: NetworkProtocol::TCP,
        data: Vec::new(),
    }
}

pub fn make_connection_request_packet() -> (r: NetworkPacketOut)
    ensures
        r@ == connection_request_packet(),
{
    NetworkPacketOut {
        net_id: Uuid { bits: 0 },
        message_type: MessageType::ConnectionRequest,
        protocol: NetworkProtocol::TCP,
        data: Vec::new(),
    }
}

/// Draws a random identity that was never issued by this registry.  Gives
/// up after a bounded number of draws rather than looping forever.
pub(crate) fn draw_fresh_id(reg: &Registry) -> (r: Option<Uuid>)
    ensures
        match r {
            Some(id) => !reg.was_issued(id) && id != Uuid::nil_id(),
            None => true,
        },
{
    let mut attempts: usize = 0;
    while attempts < ID_DRAW_ATTEMPTS
        decreases ID_DRAW_ATTEMPTS - attempts,
    {
        let id = Uuid { bits: random_uuid_bits() };
        if !reg.contains_issued(id) {
            return Some(id);
        }
        attempts = attempts + 1;
    }
    None
}

/// The server's half of the handshake, on one inbound connection request.
///
/// From a not-yet-known address: a fresh identity, never issued before in
/// this server's lifetime, is assigned; the session is registered; the
/// accept is addressed to the requester alone; and a new-client notice goes
/// to every client that was already registered — never to the new one.
/// From a known address the existing accept is simply re-sent.  `None` only
/// when no unissued identity was found among the bounded draws; nothing
/// changes then, and the client will request again.
pub fn server_handle_connection_request(
    reg: &mut Registry,
    out: &mut OutboundQueue,
    sender_addr: NetAddr,
    now: u64,
) -> (r: Option<Uuid>)
    requires
        old(reg).wf(),
    ensures
        final(reg).wf(),
        final(out).cap() == old(out).cap(),
        match r {
            Some(id) => if old(reg).has_addr(sender_addr) {
                &&& final(reg).sessions() == old(reg).sessions()
                &&& final(reg).issued() == old(reg).issued()
                &&& exists|i: int|
                    0 <= i < old(reg).sessions().len() && (#[trigger] old(reg).sessions()[i]).addr
                        == sender_addr && old(reg).sessions()[i].player.client_id == id
                &&& final(out)@ == offered(old(out)@, accept_packet(id), old(out).cap())
            } else {
                &&& !old(reg).was_issued(id)
                &&& id != Uuid::nil_id()
                &&& final(reg).sessions() == old(reg).sessions().push(
                    (Session { addr: sender_addr, player: (Player { client_id: id, last_keep_alive: now }) }),
                )
                &&& final(reg).issued() == old(reg).issued().push(id)
                &&& final(out)@ == offered_all(
                    old(out)@,
                    seq![accept_packet(id)] + new_client_notices(old(reg).sessions(), id),
                    old(out).cap(),
                )
            },
            None => !old(reg).has_addr(sender_addr) && final(reg).sessions() == old(reg).sessions()
                && final(reg).issued() == old(reg).issued() && final(out)@ == old(out)@,
        },
{
    match reg.session_of_addr(sender_addr) {
        Some(s) => {
            let _ = out.try_send(make_accept_packet(s.player.client_id));
            Some(s.player.client_id)
        },
        None => {
            match draw_fresh_id(reg) {
                None => None,
                Some(id) => {
                    let ghost cap = out.cap();
                    let _ = out.try_send(make_accept_packet(id));
                    proof {
                        let acc = seq![accept_packet(id)];
                        assert(acc.drop_first() =~= Seq::<PacketOutView>::empty());
                        assert(offered_all(
                            offered(old(out)@, accept_packet(id), cap),
                            acc.drop_first(),
                            cap,
                        ) == offered(old(out)@, accept_packet(id), cap));
                        assert(offered_all(old(out)@, acc, cap) == offered(
                            old(out)@,
                            accept_packet(id),
                            cap,
                        ));
                        assert(acc + new_client_notices(reg.sessions().take(0), id) =~= acc);
                    }
                    let mut k: usize = 0;
                    let n = reg.len();
                    while k < n
                        invariant
                            reg.wf(),
                            reg.sessions() == old(reg).sessions(),
                            reg.issued() == old(reg).issued(),
                            n == reg.sessions().len(),
                            k <= n,
                            out.cap() == cap,
                            out@ == offered_all(
                                old(out)@,
                                seq![accept_packet(id)] + new_client_notices(
                                    reg.sessions().take(k as int),
                                    id,
                                ),
                                cap,
                            ),
                        decreases n - k,
                    {
                        let s = reg.session_at(k);
                        let ghost msgs_k = seq![accept_packet(id)] + new_client_notices(
                            reg.sessions().take(k as int),
                            id,
                        );
                        let notice = make_new_client_packet(s.player.client_id, id);
                        proof {
                            crate::channel::lemma_offered_all_push(
                                old(out)@,
                                msgs_k,
                                new_client_packet(s.player.client_id, id),
                                cap,
                            );
                            assert(new_client_notices(reg.sessions().take(k + 1), id)
                                =~= new_client_notices(reg.sessions().take(k as int), id).push(
                                new_client_packet(s.player.client_id, id),
                            ));
                            assert(msgs_k.push(new_client_packet(s.player.client_id, id))
                                =~= seq![accept_packet(id)] + new_client_notices(
                                reg.sessions().take(k + 1),
                                id,
                            ));
                        }
                        let _ = out.try_send(notice);
                        k = k + 1;
                    }
                    proof {
                        assert(reg.sessions().take(n as int) =~= reg.sessions());
                    }
                    reg.insert_session(sender_addr, id, now);
                    Some(id)
                },
            }
        },
    }
}

/// The client's half of the handshake: on an inbound accept, the payload is
/// decoded and the assigned identity becomes this end's own.  A malformed
/// payload is discarded and nothing changes.
pub fn client_handle_connection_accept(
    player_self: &mut Option<Player>,
    data: &Vec<u8>,
    now: u64,
) -> (r: Result<Uuid, crate::codec::CodecError>)
    ensures
        match r {
            Ok(id) => dec_connection_accept(data@) == Some(ConnectionAcceptData { uuid: id })
                && *final(player_self) == Some(Player { client_id: id, last_keep_alive: now }),
            Err(_) => dec_connection_accept(data@) is None && *final(player_self) == *old(
                player_self,
            ),
        },
{
    match decode_connection_accept(data.as_slice()) {
        Ok(acc) => {
            *player_self = Some(Player { client_id: acc.uuid, last_keep_alive: now });
            Ok(acc.uuid)
        },
        Err(e) => Err(e),
    }
}

/// The server's keep-alive sweep: every session silent for the drop
/// threshold is removed, together with every entity it owns.  Returns the
/// identities dropped.
pub fn server_drop_expired(
    reg: &mut Registry,
    table: &mut ReplicationTable,
    now: u64,
    threshold: u64,
) -> (removed: Vec<Uuid>)
    requires
        old(reg).wf(),
        old(table).wf(),
    ensures
        final(reg).wf(),
        final(table).wf(),
        final(reg).issued() == old(reg).issued(),
        final(reg).sessions() == old(reg).sessions().filter(keep_pred(now, threshold)),
        removed@ == session_ids(
            old(reg).sessions().filter(crate::registry::gone_pred(now, threshold)),
        ),
        final(table)@ == old(table)@.filter(crate::replication::not_owned_by_any(removed@)),
{
    let removed = reg.remove_expired(now, threshold);
    let _ = table.remove_owned_by(&removed);
    removed
}

/// When the next periodic emission is due, relative to when one last went
/// out.
pub open spec fn emission_due(now: u64, last: u64) -> bool {
    now >= last + KEEP_ALIVE_INTERVAL_MS
}

/// When a disconnected client's next connection request is due: at once on
/// the first tick, then once per retry interval.
pub open spec fn request_due(tried_last: Option<u64>, now: u64) -> bool {
    match tried_last {
        None => true,
        Some(t) => now >= t + KEEP_ALIVE_INTERVAL_MS,
    }
}

/// The connection state a client's tick reads and writes.
pub struct ClientConnState {
    pub player_self: Option<Player>,
    pub server_last_keep_alive: u64,
    pub client_connection_tried_last: Option<u64>,
}

/// The client connection state held in the networking resource.
pub open spec fn client_conn_state(net: NetworkData) -> ClientConnState {
    ClientConnState {
        player_self: net.player_self,
        server_last_keep_alive: net.server_last_keep_alive,
        client_connection_tried_last: net.client_connection_tried_last,
    }
}

/// A client's connection state after one drained message: any traffic from
/// the server refreshes the keep-alive timestamp, and an accept with a
/// decodable payload makes the carried identity this end's own.
pub open spec fn client_conn_step(s: ClientConnState, m: PacketInView, now: u64) -> ClientConnState {
    let refreshed = ClientConnState { server_last_keep_alive: now, ..s };
    match m.message_type {
        MessageTypeView::ConnectionAccept => match dec_connection_accept(m.data) {
            Some(d) => ClientConnState {
                player_self: Some(Player { client_id: d.uuid, last_keep_alive: now }),
                ..refreshed
            },
            None => refreshed,
        },
        _ => refreshed,
    }
}

/// A client's connection state after a run of drained messages, oldest
/// first.
pub open spec fn client_conn_apply_all(
    s: ClientConnState,
    msgs: Seq<PacketInView>,
    now: u64,
) -> ClientConnState
    decreases msgs.len(),
{
    if msgs.len() == 0 {
        s
    } else {
        client_conn_apply_all(client_conn_step(s, msgs[0], now), msgs.drop_first(), now)
    }
}

/// One more message after a run is one more step at the end.
pub proof fn lemma_client_conn_apply_all_push(
    s: ClientConnState,
    msgs: Seq<PacketInView>,
    m: PacketInView,
    now: u64,
)
    ensures
        client_conn_apply_all(s, msgs.push(m), now) == client_conn_step(
            client_conn_apply_all(s, msgs, now),
            m,
            now,
        ),
    decreases msgs.len(),
{
    if msgs.len() == 0 {
        assert(msgs.push(m).drop_first() =~= msgs);
        assert(msgs.push(m)[0] == m);
        assert(client_conn_apply_all(client_conn_step(s, m, now), msgs, now) == client_conn_step(
            s,
            m,
            now,
        ));
        assert(client_conn_apply_all(s, msgs, now) == s);
    } else {
        assert(msgs.push(m).drop_first() =~= msgs.drop_first().push(m));
        assert(msgs.push(m)[0] == msgs[0]);
        assert(client_conn_apply_all(s, msgs.push(m), now) == client_conn_apply_all(
            client_conn_step(s, msgs[0], now),
            msgs.drop_first().push(m),
            now,
        ));
        assert(client_conn_apply_all(s, msgs, now) == client_conn_apply_all(
            client_conn_step(s, msgs[0], now),
            msgs.drop_first(),
            now,
        ));
        lemma_client_conn_apply_all_push(client_conn_step(s, msgs[0], now), msgs.drop_first(), m, now);
    }
}

/// The drop check: a client whose server has been silent for the drop
/// threshold returns to disconnected.
pub open spec fn client_after_timeout(s: ClientConnState, now: u64) -> ClientConnState {
    if s.player_self is Some && spec_expired(
        now,
        s.server_last_keep_alive,
        KEEP_ALIVE_MISSED_DROP_CONNECTION_MS,
    ) {
        ClientConnState { player_self: None, ..s }
    } else {
        s
    }
}

/// The state after this tick's periodic emission: a connected client
/// records that its keep-alive went out; a disconnected one, that its
/// connection request did.
pub open spec fn client_after_emission(s: ClientConnState, now: u64) -> ClientConnState {
    match s.player_self {
        Some(p) => if emission_due(now, p.last_keep_alive) {
            ClientConnState {
                player_self: Some(Player { client_id: p.client_id, last_keep_alive: now }),
                ..s
            }
        } else {
            s
        },
        None => if request_due(s.client_connection_tried_last, now) {
            ClientConnState { client_connection_tried_last: Some(now), ..s }
        } else {
            s
        },
    }
}

/// What this tick's periodic emission offers to the outbound queue: one
/// keep-alive while connected, one connection request while disconnected,
/// each on its own interval.
pub open spec fn client_emitted(s: ClientConnState, now: u64) -> Seq<PacketOutView> {
    match s.player_self {
        Some(p) => if emission_due(now, p.last_keep_alive) {
            seq![keep_alive_packet(p.client_id)]
        } else {
            Seq::empty()
        },
        None => if request_due(s.client_connection_tried_last, now) {
            seq![connection_request_packet()]
        } else {
            Seq::empty()
        },
    }
}

/// The connection state a server's tick reads and writes.
pub struct ServerConnState {
    pub sessions: Seq<Session>,
    pub issued: Seq<Uuid>,
    pub outbound: Seq<PacketOutView>,
}

/// The server connection state held in the networking resource.
pub open spec fn server_conn_state(net: NetworkData) -> ServerConnState {
    ServerConnState {
        sessions: net.registry.sessions(),
        issued: net.registry.issued(),
        outbound: net.outbound@,
    }
}

/// What one handshake can leave behind.  The drawn identity is random, so
/// this relation states what holds of every outcome: from a known address
/// the existing accept is re-sent and nothing else changes; from a new
/// address either some fresh, never-issued identity is registered,
/// accepted to the requester alone and announced to every prior client, or
/// — only when no unissued identity came up among the bounded draws —
/// nothing changes.
pub open spec fn handshake_outcome(
    pre: ServerConnState,
    addr: NetAddr,
    now: u64,
    cap: nat,
    post: ServerConnState,
) -> bool {
    if seq_has_addr(pre.sessions, addr) {
        exists|i: int|
            {
                &&& 0 <= i < pre.sessions.len()
                &&& (#[trigger] pre.sessions[i]).addr == addr
                &&& post == (ServerConnState {
                    outbound: offered(
                        pre.outbound,
                        accept_packet(pre.sessions[i].player.client_id),
                        cap,
                    ),
                    ..pre
                })
            }
    } else {
        ||| post == pre
        ||| exists|id: Uuid|
            {
                &&& !pre.issued.contains(id)
                &&& id != Uuid::nil_id()
                &&& post == (ServerConnState {
                    sessions: pre.sessions.push(
                        (Session { addr, player: (Player { client_id: id, last_keep_alive: now }) }),
                    ),
                    issued: pre.issued.push(id),
                    outbound: offered_all(
                        pre.outbound,
                        seq![accept_packet(id)] + new_client_notices(pre.sessions, id),
                        cap,
                    ),
                })
            }
    }
}

/// A server's connection state after one drained message: the sender's
/// session is refreshed by any traffic, and a connection request runs the
/// handshake.
pub open spec fn server_conn_step(
    pre: ServerConnState,
    m: PacketInView,
    now: u64,
    cap: nat,
    post: ServerConnState,
) -> bool {
    let refreshed = ServerConnState {
        sessions: touched_sessions(pre.sessions, m.client.client_id, now),
        ..pre
    };
    match m.message_type {
        MessageTypeView::ConnectionRequest => handshake_outcome(refreshed, m.client.addr, now, cap, post),
        _ => post == refreshed,
    }
}

/// A server's connection state after a run of drained messages, oldest
/// first: some chain of per-message outcomes connects the two states.
pub open spec fn server_conn_steps(
    pre: ServerConnState,
    msgs: Seq<PacketInView>,
    now: u64,
    cap: nat,
    post: ServerConnState,
) -> bool
    decreases msgs.len(),
{
    if msgs.len() == 0 {
        post == pre
    } else {
        exists|mid: ServerConnState|
            #[trigger] server_conn_step(pre, msgs[0], now, cap, mid) && server_conn_steps(
                mid,
                msgs.drop_first(),
                now,
                cap,
                post,
            )
    }
}

/// One more message after a chain is one more step at the end.
pub proof fn lemma_server_conn_steps_push(
    pre: ServerConnState,
    msgs: Seq<PacketInView>,
    m: PacketInView,
    now: u64,
    cap: nat,
    mid: ServerConnState,
    post: ServerConnState,
)
    requires
        server_conn_steps(pre, msgs, now, cap, mid),
        server_conn_step(mid, m, now, cap, post),
    ensures
        server_conn_steps(pre, msgs.push(m), now, cap, post),
    decreases msgs.len(),
{
    assert(msgs.push(m)[0] == if msgs.len() == 0 {
        m
    } else {
        msgs[0]
    });
    if msgs.len() == 0 {
        assert(msgs.push(m).drop_first() =~= msgs);
        assert(server_conn_step(pre, msgs.push(m)[0], now, cap, post));
        assert(server_conn_steps(post, msgs.push(m).drop_first(), now, cap, post));
    } else {
        let mid0 = choose|mid0: ServerConnState|
            #[trigger] server_conn_step(pre, msgs[0], now, cap, mid0) && server_conn_steps(
                mid0,
                msgs.drop_first(),
                now,
                cap,
                mid,
            );
        lemma_server_conn_steps_push(mid0, msgs.drop_first(), m, now, cap, mid, post);
        assert(msgs.push(m).drop_first() =~= msgs.drop_first().push(m));
        assert(server_conn_step(pre, msgs.push(m)[0], now, cap, mid0));
        assert(server_conn_steps(mid0, msgs.push(m).drop_first(), now, cap, post));
    }
}

/// One keep-alive per registered session, in table order.
pub open spec fn keep_alive_notices(sessions: Seq<Session>) -> Seq<PacketOutView> {
    sessions.map(|_i: int, s: Session| keep_alive_packet(s.player.client_id))
}

/// The prefix of a handler's inbox that one tick drains: everything, up to
/// the hard per-tick cap.
pub open spec fn drained_prefix(inbox: Seq<PacketInView>) -> Seq<PacketInView> {
    inbox.take(
        if inbox.len() <= MAX_MESSAGES_PER_TICK {
            inbox.len() as int
        } else {
            MAX_MESSAGES_PER_TICK as int
        },
    )
}

/// The per-tick connection handler.  It owns its inbound receiver, obtained
/// once at setup; each tick it drains at most the per-tick cap, applies the
/// handshake and keep-alive rules, then emits this end's periodic traffic.
pub struct ConnectionHandler {
    receiver: InboundReceiver,
}

impl Default for ConnectionHandler {
    /// A handler with an empty inbox of the standard capacity.
    fn default() -> (r: Self)
        ensures
            r.inbox() == Seq::<crate::msg::PacketInView>::empty(),
            r.inbox_cap() == CHANNEL_CAPACITY,
    {
        ConnectionHandler { receiver: InboundReceiver::new(CHANNEL_CAPACITY) }
    }
}

impl ConnectionHandler {
    /// What the handler has buffered and not yet processed.
    pub closed spec fn inbox(&self) -> Seq<crate::msg::PacketInView> {
        self.receiver@
    }

    pub closed spec fn inbox_cap(&self) -> nat {
        self.receiver.cap()
    }

    pub fn new(capacity: usize) -> (r: Self)
        ensures
            r.inbox() == Seq::<crate::msg::PacketInView>::empty(),
            r.inbox_cap() == capacity,
    {
        ConnectionHandler { receiver: InboundReceiver::new(capacity) }
    }

    /// Fan-out delivery of one inbound envelope into this handler's own
    /// buffer; never blocks, drops the message when the buffer is full.
    pub fn offer(&mut self, p: NetworkPacketIn) -> (r: Result<(), crate::channel::ChannelError>)
        ensures
            final(self).inbox_cap() == old(self).inbox_cap(),
            final(self).inbox() == offered(old(self).inbox(), p@, old(self).inbox_cap()),
            r is Ok <==> old(self).inbox().len() < old(self).inbox_cap(),
    {
        self.receiver.offer(p)
    }

    /// One inbound message.  Any traffic from a known session refreshes its
    /// keep-alive state; connection requests and accepts drive the
    /// handshake; everything else is not this handler's business.
    fn handle_message(net: &mut NetworkData, m: &NetworkPacketIn, now: u64)
        requires
            old(net).wf(),
        ensures
            final(net).wf(),
            final(net).is_server == old(net).is_server,
            final(net).outbound.cap() == old(net).outbound.cap(),
            final(net).keep_alive_sent_last == old(net).keep_alive_sent_last,
            old(net).is_server ==> server_conn_step(
                server_conn_state(*old(net)),
                m@,
                now,
                old(net).outbound.cap(),
                server_conn_state(*final(net)),
            ) && final(net).player_self == old(net).player_self
                && final(net).server_last_keep_alive == old(net).server_last_keep_alive
                && final(net).client_connection_tried_last == old(net).client_connection_tried_last,
            !old(net).is_server ==> client_conn_state(*final(net)) == client_conn_step(
                client_conn_state(*old(net)),
                m@,
                now,
            ) && final(net).registry == old(net).registry && final(net).outbound@ == old(
                net,
            ).outbound@,
    {
        if net.is_server {
            let ghost cap = net.outbound.cap();
            let _ = net.registry.touch(m.client.client_id, now);
            let ghost refreshed = server_conn_state(*net);
            match &m.message_type {
                MessageType::ConnectionRequest => {
                    let r = server_handle_connection_request(
                        &mut net.registry,
                        &mut net.outbound,
                        m.client.addr,
                        now,
                    );
                    proof {
                        let post = server_conn_state(*net);
                        match r {
                            Some(id) => {
                                if seq_has_addr(refreshed.sessions, m.client.addr) {
                                    let i = choose|i: int|
                                        0 <= i < refreshed.sessions.len() && (
                                        #[trigger] refreshed.sessions[i]).addr == m.client.addr
                                            && refreshed.sessions[i].player.client_id == id;
                                    assert(refreshed.sessions[i].addr == m.client.addr);
                                    assert(post == (ServerConnState {
                                        outbound: offered(
                                            refreshed.outbound,
                                            accept_packet(refreshed.sessions[i].player.client_id),
                                            cap,
                                        ),
                                        ..refreshed
                                    }));
                                } else {
                                    assert(!refreshed.issued.contains(id));
                                    assert(post == (ServerConnState {
                                        sessions: refreshed.sessions.push(
                                            (Session {
                                                addr: m.client.addr,
                                                player: (Player {
                                                    client_id: id,
                                                    last_keep_alive: now,
                                                }),
                                            }),
                                        ),
                                        issued: refreshed.issued.push(id),
                                        outbound: offered_all(
                                            refreshed.outbound,
                                            seq![accept_packet(id)] + new_client_notices(
                                                refreshed.sessions,
                                                id,
                                            ),
                                            cap,
                                        ),
                                    }));
                                }
                            },
                            None => {
                                assert(post == refreshed);
                            },
                        }
                        assert(handshake_outcome(refreshed, m.client.addr, now, cap, post));
                    }
                },
                _ => {
                    proof {
                        assert(server_conn_state(*net) == refreshed);
                    }
                },
            }
        } else {
            net.server_last_keep_alive = now;
            match &m.message_type {
                MessageType::ConnectionAccept => {
                    let _ = client_handle_connection_accept(&mut net.player_self, &m.data, now);
                },
                _ => {},
            }
        }
    }

    /// One tick of the connection handler.
    ///
    /// Messages are drained up to the per-tick cap and applied oldest
    /// first: on the server, each chains one `server_conn_step` (sender
    /// refreshed, handshakes answered); on a client, the state follows the
    /// `client_conn_step` fold.  The server then removes every session
    /// silent for the drop threshold together with everything it owned and,
    /// when due, queues one keep-alive per surviving session; a client
    /// whose server has been silent past the threshold returns to
    /// disconnected, and it then queues its own periodic keep-alive or
    /// connection request.
    pub fn run(&mut self, net: &mut NetworkData, table: &mut ReplicationTable, now: u64)
        requires
            old(net).wf(),
            old(table).wf(),
        ensures
            final(net).wf(),
            final(table).wf(),
            final(net).is_server == old(net).is_server,
            final(net).outbound.cap() == old(net).outbound.cap(),
            final(self).inbox_cap() == old(self).inbox_cap(),
            final(self).inbox() == old(self).inbox().skip(drained_prefix(old(self).inbox()).len() as int),
            old(net).is_server ==> final(net).player_self == old(net).player_self
                && final(net).server_last_keep_alive == old(net).server_last_keep_alive
                && final(net).client_connection_tried_last == old(net).client_connection_tried_last
                && exists|mid: ServerConnState|
                {
                    &&& #[trigger] server_conn_steps(
                        server_conn_state(*old(net)),
                        drained_prefix(old(self).inbox()),
                        now,
                        old(net).outbound.cap(),
                        mid,
                    )
                    &&& final(net).registry.sessions() == mid.sessions.filter(
                        keep_pred(now, KEEP_ALIVE_MISSED_DROP_CONNECTION_MS),
                    )
                    &&& final(net).registry.issued() == mid.issued
                    &&& final(table)@ == old(table)@.filter(
                        crate::replication::not_owned_by_any(
                            session_ids(
                                mid.sessions.filter(
                                    crate::registry::gone_pred(
                                        now,
                                        KEEP_ALIVE_MISSED_DROP_CONNECTION_MS,
                                    ),
                                ),
                            ),
                        ),
                    )
                    &&& final(net).outbound@ == if emission_due(now, old(net).keep_alive_sent_last) {
                        offered_all(
                            mid.outbound,
                            keep_alive_notices(final(net).registry.sessions()),
                            old(net).outbound.cap(),
                        )
                    } else {
                        mid.outbound
                    }
                    &&& final(net).keep_alive_sent_last == if emission_due(
                        now,
                        old(net).keep_alive_sent_last,
                    ) {
                        now
                    } else {
                        old(net).keep_alive_sent_last
                    }
                },
            old(net).is_server ==> forall|i: int|
                0 <= i < final(net).registry.sessions().len() ==> !spec_expired(
                    now,
                    (#[trigger] final(net).registry.sessions()[i]).player.last_keep_alive,
                    KEEP_ALIVE_MISSED_DROP_CONNECTION_MS,
                ),
            !old(net).is_server ==> ({
                let after = client_after_timeout(
                    client_conn_apply_all(
                        client_conn_state(*old(net)),
                        drained_prefix(old(self).inbox()),
                        now,
                    ),
                    now,
                );
                &&& client_conn_state(*final(net)) == client_after_emission(after, now)
                &&& final(net).outbound@ == offered_all(
                    old(net).outbound@,
                    client_emitted(after, now),
                    old(net).outbound.cap(),
                )
                &&& final(net).registry == old(net).registry
                &&& final(table)@ == old(table)@
                &&& final(net).keep_alive_sent_last == old(net).keep_alive_sent_last
            }),
            !old(net).is_server ==> (final(net).player_self is Some ==> !spec_expired(
                now,
                final(net).server_last_keep_alive,
                KEEP_ALIVE_MISSED_DROP_CONNECTION_MS,
            )),
    {
        let ghost cap = net.outbound.cap();
        let msgs = self.receiver.drain(MAX_MESSAGES_PER_TICK);
        let ghost drained = drained_prefix(old(self).inbox());
        proof {
            assert(crate::channel::in_views(msgs@) == drained);
            assert(drained.take(0) =~= Seq::<PacketInView>::empty());
        }
        let mut i: usize = 0;
        while i < msgs.len()
            invariant
                net.wf(),
                net.is_server == old(net).is_server,
                net.outbound.cap() == cap,
                cap == old(net).outbound.cap(),
                net.keep_alive_sent_last == old(net).keep_alive_sent_last,
                i <= msgs@.len(),
                crate::channel::in_views(msgs@) == drained,
                old(net).is_server ==> server_conn_steps(
                    server_conn_state(*old(net)),
                    drained.take(i as int),
                    now,
                    cap,
                    server_conn_state(*net),
                ) && net.player_self == old(net).player_self && net.server_last_keep_alive == old(
                    net,
                ).server_last_keep_alive && net.client_connection_tried_last == old(
                    net,
                ).client_connection_tried_last,
                !old(net).is_server ==> client_conn_state(*net) == client_conn_apply_all(
                    client_conn_state(*old(net)),
                    drained.take(i as int),
                    now,
                ) && net.registry == old(net).registry && net.outbound@ == old(net).outbound@,
            decreases msgs@.len() - i,
        {
            let m = &msgs[i];
            let ghost before = *net;
            Self::handle_message(net, m, now);
            proof {
                assert(drained[i as int] == m@);
                assert(drained.take(i + 1) =~= drained.take(i as int).push(drained[i as int]));
                if old(net).is_server {
                    lemma_server_conn_steps_push(
                        server_conn_state(*old(net)),
                        drained.take(i as int),
                        drained[i as int],
                        now,
                        cap,
                        server_conn_state(before),
                        server_conn_state(*net),
                    );
                } else {
                    lemma_client_conn_apply_all_push(
                        client_conn_state(*old(net)),
                        drained.take(i as int),
                        drained[i as int],
                        now,
                    );
                }
            }
            i = i + 1;
        }
        proof {
            assert(drained.take(msgs@.len() as int) =~= drained);
        }
        if net.is_server {
            let ghost mid = server_conn_state(*net);
            let _removed = server_drop_expired(
                &mut net.registry,
                table,
                now,
                KEEP_ALIVE_MISSED_DROP_CONNECTION_MS,
            );
            proof {
                assert forall|k: int| 0 <= k < net.registry.sessions().len() implies !spec_expired(
                    now,
                    (#[trigger] net.registry.sessions()[k]).player.last_keep_alive,
                    KEEP_ALIVE_MISSED_DROP_CONNECTION_MS,
                ) by {
                    mid.sessions.lemma_filter_pred(
                        keep_pred(now, KEEP_ALIVE_MISSED_DROP_CONNECTION_MS),
                        k,
                    );
                    assert(keep_pred(now, KEEP_ALIVE_MISSED_DROP_CONNECTION_MS)(
                        net.registry.sessions()[k],
                    ) == !spec_expired(
                        now,
                        net.registry.sessions()[k].player.last_keep_alive,
                        KEEP_ALIVE_MISSED_DROP_CONNECTION_MS,
                    ));
                }
            }
            let due = now >= net.keep_alive_sent_last && now - net.keep_alive_sent_last
                >= KEEP_ALIVE_INTERVAL_MS;
            proof {
                assert(due == emission_due(now, old(net).keep_alive_sent_last));
            }
            if due {
                net.keep_alive_sent_last = now;
                let ghost swept = net.registry.sessions();
                proof {
                    assert(keep_alive_notices(swept.take(0)) =~= Seq::<PacketOutView>::empty());
                    assert(offered_all(mid.outbound, Seq::<PacketOutView>::empty(), cap)
                        == mid.outbound);
                }
                let n = net.registry.len();
                let mut k: usize = 0;
                while k < n
                    invariant
                        net.wf(),
                        net.is_server == old(net).is_server,
                        net.outbound.cap() == cap,
                        net.registry.sessions() == swept,
                        net.registry.issued() == mid.issued,
                        net.player_self == old(net).player_self,
                        net.server_last_keep_alive == old(net).server_last_keep_alive,
                        net.client_connection_tried_last == old(net).client_connection_tried_last,
                        net.keep_alive_sent_last == now,
                        n == swept.len(),
                        k <= n,
                        net.outbound@ == offered_all(
                            mid.outbound,
                            keep_alive_notices(swept.take(k as int)),
                            cap,
                        ),
                    decreases n - k,
                {
                    let se = net.registry.session_at(k);
                    proof {
                        crate::channel::lemma_offered_all_push(
                            mid.outbound,
                            keep_alive_notices(swept.take(k as int)),
                            keep_alive_packet(se.player.client_id),
                            cap,
                        );
                        assert(keep_alive_notices(swept.take(k + 1)) =~= keep_alive_notices(
                            swept.take(k as int),
                        ).push(keep_alive_packet(swept[k as int].player.client_id)));
                    }
                    let _ = net.outbound.try_send(make_keep_alive_packet(se.player.client_id));
                    k = k + 1;
                }
                proof {
                    assert(swept.take(n as int) =~= swept);
                }
            }
        } else {
            let ghost cstate = client_conn_state(*net);
            let expired = net.player_self.is_some() && now >= KEEP_ALIVE_MISSED_DROP_CONNECTION_MS
                && now - KEEP_ALIVE_MISSED_DROP_CONNECTION_MS >= net.server_last_keep_alive;
            if expired {
                net.player_self = None;
            }
            let ghost after = client_after_timeout(cstate, now);
            proof {
                assert(client_conn_state(*net) == after);
            }
            let ps = net.player_self;
            match ps {
                Some(p) => {
                    if now >= KEEP_ALIVE_INTERVAL_MS && now - KEEP_ALIVE_INTERVAL_MS
                        >= p.last_keep_alive {
                        net.player_self = Some(
                            Player { client_id: p.client_id, last_keep_alive: now },
                        );
                        let ghost pkt = keep_alive_packet(p.client_id);
                        proof {
                            assert(client_emitted(after, now) =~= seq![pkt]);
                            assert(seq![pkt].drop_first() =~= Seq::<PacketOutView>::empty());
                            assert(offered_all(
                                offered(old(net).outbound@, pkt, cap),
                                Seq::<PacketOutView>::empty(),
                                cap,
                            ) == offered(old(net).outbound@, pkt, cap));
                            assert(offered_all(old(net).outbound@, seq![pkt], cap) == offered(
                                old(net).outbound@,
                                pkt,
                                cap,
                            ));
                        }
                        let _ = net.outbound.try_send(make_keep_alive_packet(p.client_id));
                    } else {
                        proof {
                            assert(client_emitted(after, now) =~= Seq::<PacketOutView>::empty());
                            assert(offered_all(
                                old(net).outbound@,
                                Seq::<PacketOutView>::empty(),
                                cap,
                            ) == old(net).outbound@);
                        }
                    }
                },
                None => {
                    let due = match net.client_connection_tried_last {
                        None => true,
                        Some(t) => now >= KEEP_ALIVE_INTERVAL_MS && now - KEEP_ALIVE_INTERVAL_MS
                            >= t,
                    };
                    proof {
                        assert(due == request_due(after.client_connection_tried_last, now));
                    }
                    if due {
                        net.client_connection_tried_last = Some(now);
                        let ghost pkt = connection_request_packet();
                        proof {
                            assert(client_emitted(after, now) =~= seq![pkt]);
                            assert(seq![pkt].drop_first() =~= Seq::<PacketOutView>::empty());
                            assert(offered_all(
                                offered(old(net).outbound@, pkt, cap),
                                Seq::<PacketOutView>::empty(),
                                cap,
                            ) == offered(old(net).outbound@, pkt, cap));
                            assert(offered_all(old(net).outbound@, seq![pkt], cap) == offered(
                                old(net).outbound@,
                                pkt,
                                cap,
                            ));
                        }
                        let _ = net.outbound.try_send(make_connection_request_packet());
                    } else {
                        proof {
                            assert(client_emitted(after, now) =~= Seq::<PacketOutView>::empty());
                            assert(offered_all(
                                old(net).outbound@,
                                Seq::<PacketOutView>::empty(),
                                cap,
                            ) == old(net).outbound@);
                        }
                    }
                },
            }
        }
    }
}

} // verus!
