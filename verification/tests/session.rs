use hawknet::channel::OutboundQueue;
use hawknet::codec::{
    decode_connection_accept, decode_new_client, encode_packet, ConnectionAcceptData,
};
use hawknet::components::{Movement, NetworkReplicated, Transform};
use hawknet::connection::{server_drop_expired, server_handle_connection_request};
use hawknet::ids::Uuid;
use hawknet::msg::{MessageType, NetAddr, RawNetworkMessagePacket};
use hawknet::registry::Registry;
use hawknet::replication::{ReplicatedEntity, ReplicationTable};
use hawknet::transport::{
    client_route_outbound, server_accept_datagram, server_accept_stream, server_route_outbound,
    DatagramError, RouteError,
};

const DROP_MS: u64 = 5000;

fn addr(n: u128) -> NetAddr {
    NetAddr { ip: n, port: 4000 }
}

fn entity(net_id: u128, owner: Uuid) -> ReplicatedEntity {
    ReplicatedEntity {
        replicated: NetworkReplicated {
            net_id: Uuid { bits: net_id },
            owner_id: owner,
            entity_type: b"player".to_vec(),
        },
        transform: Transform::default(),
        movement: Movement::default(),
        camera: None,
    }
}

/// Connects one client through the full handshake and returns its id.
fn connect(reg: &mut Registry, out: &mut OutboundQueue, a: NetAddr, now: u64) -> Uuid {
    server_handle_connection_request(reg, out, a, now).expect("no identity assigned")
}

#[test]
fn handshake_assigns_fresh_id_and_notifies_only_the_others() {
    let mut reg = Registry::new();
    let mut out = OutboundQueue::new(64);

    // an earlier client is already registered
    let first = connect(&mut reg, &mut out, addr(1), 1000);
    assert!(!first.is_nil());
    while out.try_recv().is_some() {}

    // the newcomer requests a connection
    let second = connect(&mut reg, &mut out, addr(2), 2000);
    assert!(!second.is_nil());
    // freshly generated: never before issued this session
    assert_ne!(second, first);

    // the server replies with an accept addressed to the requester alone
    let accept = out.try_recv().expect("no accept queued");
    assert_eq!(accept.net_id, second);
    assert!(matches!(accept.message_type, MessageType::ConnectionAccept));
    let payload = decode_connection_accept(&accept.data).unwrap();
    assert_eq!(payload, ConnectionAcceptData { uuid: second });

    // then a new-client notice to every other connected client — and only them
    let notice = out.try_recv().expect("no new-client notice queued");
    assert_eq!(notice.net_id, first);
    assert!(matches!(notice.message_type, MessageType::NewClient));
    let body = decode_new_client(&notice.data).unwrap();
    assert_eq!(body.uuid, second);
    assert!(out.try_recv().is_none(), "the new client itself must get no notice");
}

#[test]
fn handshake_from_known_address_resends_the_same_identity() {
    let mut reg = Registry::new();
    let mut out = OutboundQueue::new(64);
    let id = connect(&mut reg, &mut out, addr(1), 1000);
    while out.try_recv().is_some() {}

    let again = connect(&mut reg, &mut out, addr(1), 1500);
    assert_eq!(again, id);
    assert_eq!(reg.len(), 1);
    let accept = out.try_recv().unwrap();
    assert_eq!(accept.net_id, id);
    assert!(out.try_recv().is_none());
}

#[test]
fn silent_session_is_dropped_with_everything_it_owns() {
    let mut reg = Registry::new();
    let mut out = OutboundQueue::new(64);
    let quiet = connect(&mut reg, &mut out, addr(1), 1000);
    let chatty = connect(&mut reg, &mut out, addr(2), 1000);

    let mut table = ReplicationTable::new();
    table.spawn(entity(100, quiet));
    table.spawn(entity(101, chatty));
    table.spawn(entity(102, Uuid { bits: 0 })); // server-owned

    // traffic from the chatty one arrives later; the quiet one says nothing
    assert!(reg.touch(chatty, 3000));

    // at 7000 the quiet session has been silent for 6000 >= the threshold
    let removed = server_drop_expired(&mut reg, &mut table, 7000, DROP_MS);
    assert_eq!(removed, vec![quiet]);
    assert_eq!(reg.len(), 1);
    assert!(!reg.contains_id(quiet));
    assert!(reg.contains_id(chatty));

    // the quiet client's entity went with it; the others stayed
    assert_eq!(table.len(), 2);
    assert!(!table.contains_net_id(Uuid { bits: 100 }));
    assert!(table.contains_net_id(Uuid { bits: 101 }));
    assert!(table.contains_net_id(Uuid { bits: 102 }));
}

#[test]
fn identities_are_not_reused_after_a_drop() {
    let mut reg = Registry::new();
    let mut out = OutboundQueue::new(64);
    let mut table = ReplicationTable::new();
    let first = connect(&mut reg, &mut out, addr(1), 0);
    let removed = server_drop_expired(&mut reg, &mut table, DROP_MS, DROP_MS);
    assert_eq!(removed, vec![first]);
    // the address reconnects: it gets a fresh identity, never the old one
    let second = connect(&mut reg, &mut out, addr(1), DROP_MS + 1);
    assert_ne!(second, first);
}

#[test]
fn datagram_from_unregistered_address_is_discarded() {
    let mut reg = Registry::new();
    let mut out = OutboundQueue::new(64);
    let id = connect(&mut reg, &mut out, addr(1), 1000);

    let packet = encode_packet(&RawNetworkMessagePacket {
        message_type: MessageType::PlayerInput,
        payload: vec![1, 2, 3],
    });

    // unknown source: dropped before anything is decoded, nothing replies
    let r = server_accept_datagram(&reg, addr(9), &packet);
    assert_eq!(r.unwrap_err(), DatagramError::UnknownSender);
    assert!(reg.resolve_datagram(addr(9)).is_none());

    // registered source: resolved and handed on
    let p = server_accept_datagram(&reg, addr(1), &packet).unwrap();
    assert_eq!(p.client.client_id, id);
    assert_eq!(p.data, vec![1, 2, 3]);

    // registered source, malformed bytes: the message alone is discarded
    let r = server_accept_datagram(&reg, addr(1), &[250, 0, 0, 0, 0]);
    assert_eq!(r.unwrap_err(), DatagramError::Malformed);
}

#[test]
fn stream_sender_resolution_defaults_to_nil_during_handshake() {
    let mut reg = Registry::new();
    let mut out = OutboundQueue::new(64);
    let packet = encode_packet(&RawNetworkMessagePacket {
        message_type: MessageType::ConnectionRequest,
        payload: vec![],
    });
    // before the handshake the address has no identity yet
    let p = server_accept_stream(&reg, addr(1), &packet).unwrap();
    assert!(p.client.client_id.is_nil());
    assert_eq!(p.client.addr, addr(1));

    let id = connect(&mut reg, &mut out, addr(1), 1000);
    let p = server_accept_stream(&reg, addr(1), &packet).unwrap();
    assert_eq!(p.client.client_id, id);
}

#[test]
fn outbound_routing_resolves_broadcasts_and_rejects_unknown_destinations() {
    let mut reg = Registry::new();
    let mut out = OutboundQueue::new(64);
    let a = connect(&mut reg, &mut out, addr(1), 1000);
    let _b = connect(&mut reg, &mut out, addr(2), 1000);

    let to_a = hawknet::msg::NetworkPacketOut {
        net_id: a,
        message_type: MessageType::ChatMessage,
        protocol: hawknet::msg::NetworkProtocol::TCP,
        data: vec![7],
    };
    let routed = server_route_outbound(&reg, &to_a).unwrap();
    assert_eq!(routed.len(), 1);
    assert_eq!(routed[0].addr, addr(1));
    assert_eq!(routed[0].packet.payload, vec![7]);

    let broadcast = hawknet::msg::NetworkPacketOut {
        net_id: Uuid { bits: 0 },
        message_type: MessageType::ChatMessage,
        protocol: hawknet::msg::NetworkProtocol::TCP,
        data: vec![8],
    };
    let routed = server_route_outbound(&reg, &broadcast).unwrap();
    assert_eq!(routed.len(), 2);
    assert_eq!(routed[0].addr, addr(1));
    assert_eq!(routed[1].addr, addr(2));

    let unknown = hawknet::msg::NetworkPacketOut {
        net_id: Uuid { bits: 0xDEAD },
        message_type: MessageType::ChatMessage,
        protocol: hawknet::msg::NetworkProtocol::TCP,
        data: vec![],
    };
    assert_eq!(
        server_route_outbound(&reg, &unknown).unwrap_err(),
        RouteError::UnknownDestination
    );

    // a client routes everything to the server
    let m = client_route_outbound(addr(77), &to_a);
    assert_eq!(m.addr, addr(77));
    assert_eq!(m.packet.payload, vec![7]);
}
