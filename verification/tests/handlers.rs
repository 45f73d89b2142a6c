use hawknet::codec::{
    decode_transform_message, encode_connection_accept, encode_player_input, encode_transform_message,
    ConnectionAcceptData, PlayerInputData, TransformMessage,
};
use hawknet::components::{
    Movement, NetworkReplicated, PlayerInputFlags, QuatBits, Transform, Vec3Bits,
};
use hawknet::connection::ConnectionHandler;
use hawknet::generic_handler::GenericHandler;
use hawknet::ids::Uuid;
use hawknet::msg::{
    Client, MessageType, NetAddr, NetworkPacketIn, NetworkProtocol,
};
use hawknet::player_handler::PlayerHandler;
use hawknet::replication::{InputError, ReplicatedEntity, ReplicationTable};
use hawknet::resources::NetworkData;

fn addr(n: u128) -> NetAddr {
    NetAddr { ip: n, port: 4000 }
}

fn entity(net_id: u128, owner: Uuid) -> ReplicatedEntity {
    ReplicatedEntity {
        replicated: NetworkReplicated {
            net_id: Uuid { bits: net_id },
            owner_id: owner,
            entity_type: b"player".to_vec(),
        },
        transform: Transform::default(),
        movement: Movement::default(),
        camera: None,
    }
}

fn inbound(from: Uuid, mt: MessageType, proto: NetworkProtocol, data: Vec<u8>) -> NetworkPacketIn {
    NetworkPacketIn {
        client: Client { client_id: from, addr: addr(from.bits) },
        message_type: mt,
        protocol: proto,
        data,
    }
}

fn moved(x: u32) -> Transform {
    Transform {
        pos: Vec3Bits { x, y: 0, z: 0 },
        rot: QuatBits { x: 0, y: 0, z: 0, w: 0x3F80_0000 },
        scale: Vec3Bits { x: 0x3F80_0000, y: 0x3F80_0000, z: 0x3F80_0000 },
    }
}

#[test]
fn owner_input_is_accepted_and_foreign_input_mutates_nothing() {
    let owner = Uuid { bits: 10 };
    let intruder = Uuid { bits: 20 };
    let mut table = ReplicationTable::new();
    table.spawn(entity(1, owner));

    let input = PlayerInputData {
        entity_id: Uuid { bits: 1 },
        rotation: QuatBits { x: 1, y: 2, z: 3, w: 4 },
        input: PlayerInputFlags { bits: 0b1 },
    };

    // from the owner: accepted, the intent fields update
    assert!(table.apply_player_input(owner, input).is_ok());
    let e = table.entity_at(0);
    assert_eq!(e.movement.req_rotation, Some(QuatBits { x: 1, y: 2, z: 3, w: 4 }));
    assert_eq!(e.movement.req_movement, Some(PlayerInputFlags { bits: 0b1 }));

    // from any other client: rejected, and nothing changes
    let forged = PlayerInputData {
        entity_id: Uuid { bits: 1 },
        rotation: QuatBits { x: 9, y: 9, z: 9, w: 9 },
        input: PlayerInputFlags { bits: 0b111 },
    };
    assert_eq!(table.apply_player_input(intruder, forged), Err(InputError::NotOwner));
    let e = table.entity_at(0);
    assert_eq!(e.movement.req_rotation, Some(QuatBits { x: 1, y: 2, z: 3, w: 4 }));
    assert_eq!(e.movement.req_movement, Some(PlayerInputFlags { bits: 0b1 }));

    // an unknown entity is rejected too
    let stray = PlayerInputData {
        entity_id: Uuid { bits: 999 },
        rotation: QuatBits { x: 0, y: 0, z: 0, w: 0 },
        input: PlayerInputFlags { bits: 0 },
    };
    assert_eq!(table.apply_player_input(owner, stray), Err(InputError::UnknownEntity));
}

#[test]
fn transform_update_is_idempotent_on_non_owned_entities() {
    let owner = Uuid { bits: 10 };
    let me = Uuid { bits: 20 };
    let mut table = ReplicationTable::new();
    table.spawn(entity(1, owner));

    let t = moved(0x4000_0000);
    table.apply_transform_update(Uuid { bits: 1 }, t, me);
    let once = table.entity_at(0).transform;
    table.apply_transform_update(Uuid { bits: 1 }, t, me);
    let twice = table.entity_at(0).transform;
    assert_eq!(once, t);
    assert_eq!(twice, once);
}

#[test]
fn own_entity_never_takes_inbound_transforms() {
    let me = Uuid { bits: 10 };
    let mut table = ReplicationTable::new();
    table.spawn(entity(1, me));
    let before = table.entity_at(0).transform;
    table.apply_transform_update(Uuid { bits: 1 }, moved(0x4234_0000), me);
    assert_eq!(table.entity_at(0).transform, before);
}

#[test]
fn client_replication_applies_updates_and_spawns_placeholders() {
    let me = Uuid { bits: 5 };
    let other = Uuid { bits: 6 };
    let mut net = NetworkData::new(false, 64, addr(1), addr(2), 0);
    net.player_self = Some(hawknet::registry::Player { client_id: me, last_keep_alive: 0 });
    let mut table = ReplicationTable::new();
    table.spawn(entity(1, other));

    let mut handler = GenericHandler::default();
    // two updates for the same entity: the most recently processed wins
    let t1 = encode_transform_message(&TransformMessage {
        component_id: Uuid { bits: 1 },
        transform: moved(0x3F00_0000),
    });
    let t2 = encode_transform_message(&TransformMessage {
        component_id: Uuid { bits: 1 },
        transform: moved(0x4080_0000),
    });
    let server = Client { client_id: Uuid { bits: 0 }, addr: addr(0) };
    handler
        .offer(NetworkPacketIn {
            client: server,
            message_type: MessageType::ComponentTransform,
            protocol: NetworkProtocol::UDP,
            data: t1,
        })
        .unwrap();
    handler
        .offer(NetworkPacketIn {
            client: server,
            message_type: MessageType::ComponentTransform,
            protocol: NetworkProtocol::UDP,
            data: t2,
        })
        .unwrap();
    // and a spawn notice for an entity this client has never seen
    let spawn = hawknet::codec::encode_new_replicated(&hawknet::codec::NewReplicatedData {
        owner_id: other,
        entity_id: Uuid { bits: 77 },
        entity_type: b"crate_model".to_vec(),
    });
    handler
        .offer(NetworkPacketIn {
            client: server,
            message_type: MessageType::NewReplicated,
            protocol: NetworkProtocol::TCP,
            data: spawn,
        })
        .unwrap();

    handler.run(&mut net, &mut table);

    assert_eq!(table.entity_at(0).transform, moved(0x4080_0000));
    assert_eq!(table.len(), 2);
    let placeholder = table.entity_at(1);
    assert_eq!(placeholder.replicated.net_id, Uuid { bits: 77 });
    assert_eq!(placeholder.replicated.owner_id, other);
    assert_eq!(placeholder.replicated.entity_type, b"crate_model".to_vec());
}

#[test]
fn server_replication_broadcasts_one_update_per_entity() {
    let owner = Uuid { bits: 9 };
    let mut net = NetworkData::new(true, 64, addr(1), addr(2), 0);
    let mut table = ReplicationTable::new();
    table.spawn(entity(1, owner));
    let mut second = entity(2, owner);
    second.transform = moved(0x4100_0000);
    table.spawn(second);

    let mut handler = GenericHandler::default();
    handler.run(&mut net, &mut table);

    for expected in [Uuid { bits: 1 }, Uuid { bits: 2 }] {
        let pkt = net.outbound.try_recv().expect("missing transform broadcast");
        assert!(matches!(pkt.message_type, MessageType::ComponentTransform));
        assert!(matches!(pkt.protocol, NetworkProtocol::UDP));
        assert!(pkt.net_id.is_nil(), "transform sync goes to every client");
        let tm = decode_transform_message(&pkt.data).unwrap();
        assert_eq!(tm.component_id, expected);
    }
    assert!(net.outbound.try_recv().is_none());
}

#[test]
fn client_sends_intent_only_for_entities_it_owns() {
    let me = Uuid { bits: 5 };
    let other = Uuid { bits: 6 };
    let mut net = NetworkData::new(false, 64, addr(1), addr(2), 0);
    net.player_self = Some(hawknet::registry::Player { client_id: me, last_keep_alive: 0 });
    let mut table = ReplicationTable::new();
    let mut mine = entity(1, me);
    mine.movement.req_rotation = Some(QuatBits { x: 4, y: 5, z: 6, w: 7 });
    mine.movement.req_movement = Some(PlayerInputFlags { bits: 0b11 });
    table.spawn(mine);
    table.spawn(entity(2, other));

    let mut handler = PlayerHandler::default();
    handler.run(&mut net, &mut table);

    let pkt = net.outbound.try_recv().expect("no input message sent");
    assert!(matches!(pkt.message_type, MessageType::PlayerInput));
    assert!(matches!(pkt.protocol, NetworkProtocol::UDP));
    let d = hawknet::codec::decode_player_input(&pkt.data).unwrap();
    assert_eq!(d.entity_id, Uuid { bits: 1 });
    assert_eq!(d.rotation, QuatBits { x: 4, y: 5, z: 6, w: 7 });
    assert_eq!(d.input, PlayerInputFlags { bits: 0b11 });
    assert!(net.outbound.try_recv().is_none(), "nothing may be sent for foreign entities");
}

#[test]
fn server_player_handler_enforces_ownership_end_to_end() {
    let owner = Uuid { bits: 10 };
    let intruder = Uuid { bits: 20 };
    let mut net = NetworkData::new(true, 64, addr(1), addr(2), 0);
    let mut table = ReplicationTable::new();
    table.spawn(entity(1, owner));

    let honest = encode_player_input(&PlayerInputData {
        entity_id: Uuid { bits: 1 },
        rotation: QuatBits { x: 1, y: 1, z: 1, w: 1 },
        input: PlayerInputFlags { bits: 0b1 },
    });
    let forged = encode_player_input(&PlayerInputData {
        entity_id: Uuid { bits: 1 },
        rotation: QuatBits { x: 9, y: 9, z: 9, w: 9 },
        input: PlayerInputFlags { bits: 0b1111111 },
    });

    let mut handler = PlayerHandler::default();
    handler
        .offer(inbound(owner, MessageType::PlayerInput, NetworkProtocol::UDP, honest))
        .unwrap();
    handler
        .offer(inbound(intruder, MessageType::PlayerInput, NetworkProtocol::UDP, forged))
        .unwrap();
    handler.run(&mut net, &mut table);

    let e = table.entity_at(0);
    assert_eq!(e.movement.req_rotation, Some(QuatBits { x: 1, y: 1, z: 1, w: 1 }));
    assert_eq!(e.movement.req_movement, Some(PlayerInputFlags { bits: 0b1 }));
}

#[test]
fn local_input_lands_on_the_camera_entity() {
    let me = Uuid { bits: 5 };
    let mut table = ReplicationTable::new();
    let mut avatar = entity(1, me);
    avatar.camera = Some(hawknet::components::Camera);
    table.spawn(avatar);
    table.spawn(entity(2, me));

    let input = hawknet::components::PlayerInput {
        flags: PlayerInputFlags { bits: 0b10010 },
        rotation: QuatBits { x: 3, y: 1, z: 4, w: 1 },
    };
    hawknet::player_handler::apply_local_input(&mut table, input);

    let cam = table.entity_at(0);
    assert_eq!(cam.movement.req_rotation, Some(QuatBits { x: 3, y: 1, z: 4, w: 1 }));
    assert_eq!(cam.movement.req_movement, Some(PlayerInputFlags { bits: 0b10010 }));
    let other = table.entity_at(1);
    assert_eq!(other.movement.req_rotation, None);
    assert_eq!(other.movement.req_movement, None);
}

#[test]
fn server_registers_requester_and_keeps_sessions_alive() {
    let mut net = NetworkData::new(true, 64, addr(0), addr(0), 0);
    let mut table = ReplicationTable::new();
    let mut handler = ConnectionHandler::default();

    // a connection request from a not-yet-known address
    handler
        .offer(inbound(Uuid { bits: 0 }, MessageType::ConnectionRequest, NetworkProtocol::TCP, vec![]))
        .unwrap();
    handler.run(&mut net, &mut table, 1000);
    assert_eq!(net.registry.len(), 1);
    let accept = net.outbound.try_recv().expect("no accept sent");
    assert!(matches!(accept.message_type, MessageType::ConnectionAccept));
    let id = hawknet::codec::decode_connection_accept(&accept.data).unwrap().uuid;
    assert!(!id.is_nil());

    // the periodic keep-alive goes out after the interval
    handler.run(&mut net, &mut table, 2100);
    let ka = net.outbound.try_recv().expect("no keep-alive sent");
    assert!(matches!(ka.message_type, MessageType::ConnectionKeepAlive));
    assert_eq!(ka.net_id, id);

    // keep-alives from the client keep the session registered...
    handler
        .offer(inbound(id, MessageType::ConnectionKeepAlive, NetworkProtocol::TCP, vec![]))
        .unwrap();
    handler.run(&mut net, &mut table, 4000);
    assert_eq!(net.registry.len(), 1);

    // ...but silence beyond the drop threshold removes it
    handler.run(&mut net, &mut table, 9500);
    assert_eq!(net.registry.len(), 0);
}

#[test]
fn client_reconnects_requests_and_drops_a_silent_server() {
    let mut net = NetworkData::new(false, 64, addr(9), addr(1), 10_000);
    let mut table = ReplicationTable::new();
    let mut handler = ConnectionHandler::default();

    // disconnected: the first tick sends a connection request
    handler.run(&mut net, &mut table, 10_000);
    let req = net.outbound.try_recv().expect("no connection request sent");
    assert!(matches!(req.message_type, MessageType::ConnectionRequest));

    // while unanswered, the request is repeated only after the retry interval
    handler.run(&mut net, &mut table, 10_500);
    assert!(net.outbound.try_recv().is_none());
    handler.run(&mut net, &mut table, 11_200);
    assert!(net.outbound.try_recv().is_some());

    // the accept arrives: the client adopts the assigned identity
    let me = Uuid { bits: 0xABCD };
    let accept = encode_connection_accept(&ConnectionAcceptData { uuid: me });
    handler
        .offer(inbound(Uuid { bits: 0 }, MessageType::ConnectionAccept, NetworkProtocol::TCP, accept))
        .unwrap();
    handler.run(&mut net, &mut table, 11_300);
    assert_eq!(net.player_self.map(|p| p.client_id), Some(me));

    // connected: it emits its own keep-alive after the interval
    handler.run(&mut net, &mut table, 12_400);
    let ka = net.outbound.try_recv().expect("no keep-alive sent");
    assert!(matches!(ka.message_type, MessageType::ConnectionKeepAlive));

    // a server silent for the drop threshold sends the client back to
    // disconnected, and it resumes its connection requests
    handler.run(&mut net, &mut table, 17_000);
    assert!(net.player_self.is_none());
    let mut saw_request = false;
    while let Some(p) = net.outbound.try_recv() {
        if matches!(p.message_type, MessageType::ConnectionRequest) {
            saw_request = true;
        }
    }
    assert!(saw_request, "reconnection attempts must resume");
}

#[test]
fn server_spawn_allocates_fresh_net_id_and_broadcasts_the_notice() {
    let mut net = NetworkData::new(true, 64, addr(1), addr(2), 0);
    let mut table = ReplicationTable::new();

    // the owner must resolve to a registered client (or be nil, the server)
    let owner = hawknet::connection::server_handle_connection_request(
        &mut net.registry,
        &mut net.outbound,
        addr(7),
        0,
    )
    .expect("no identity assigned");
    while net.outbound.try_recv().is_some() {}

    let id = hawknet::generic_handler::server_spawn_replicated(
        &mut net,
        &mut table,
        owner,
        b"crate_model".to_vec(),
        Transform::default(),
    )
    .expect("no identity allocated");
    assert!(!id.is_nil());
    assert_eq!(table.len(), 1);
    let e = table.entity_at(0);
    assert_eq!(e.replicated.net_id, id);
    assert_eq!(e.replicated.owner_id, owner);

    let notice = net.outbound.try_recv().expect("no spawn notice queued");
    assert!(matches!(notice.message_type, MessageType::NewReplicated));
    assert!(notice.net_id.is_nil(), "the spawn notice is a broadcast");
    let d = hawknet::codec::decode_new_replicated(&notice.data).unwrap();
    assert_eq!(d.entity_id, id);
    assert_eq!(d.owner_id, owner);
    assert_eq!(d.entity_type, b"crate_model".to_vec());

    // a second, server-owned spawn never reuses the first identity
    let second = hawknet::generic_handler::server_spawn_replicated(
        &mut net,
        &mut table,
        Uuid { bits: 0 },
        b"terrain".to_vec(),
        Transform::default(),
    )
    .unwrap();
    assert_ne!(second, id);
    assert_ne!(second, owner);
}
