use hawknet::codec::{
    decode_connection_accept, decode_new_client, decode_new_replicated, decode_packet,
    decode_player_input, decode_transform_message, encode_connection_accept, encode_frame,
    encode_new_client, encode_new_replicated, encode_packet, encode_player_input,
    encode_transform_message, CodecError, ConnectionAcceptData, NewClientData, NewReplicatedData,
    PlayerInputData, StreamBuffer, TransformMessage,
};
use hawknet::components::{PlayerInputFlags, QuatBits, Transform, Vec3Bits};
use hawknet::ids::Uuid;
use hawknet::msg::{MessageType, RawNetworkMessagePacket};

fn sample_transform() -> Transform {
    Transform {
        pos: Vec3Bits { x: 0x3F80_0000, y: 0x4000_0000, z: 0x4040_0000 },
        rot: QuatBits { x: 1, y: 2, z: 3, w: 0x3F80_0000 },
        scale: Vec3Bits { x: 5, y: 6, z: 7 },
    }
}

#[test]
fn connection_accept_round_trip() {
    let d = ConnectionAcceptData { uuid: Uuid { bits: 0x1234_5678_9ABC_DEF0_1122_3344_5566_7788 } };
    let bytes = encode_connection_accept(&d);
    assert_eq!(bytes.len(), 16);
    let back = decode_connection_accept(&bytes).unwrap();
    assert_eq!(back, d);
}

#[test]
fn connection_accept_rejects_wrong_length() {
    let d = ConnectionAcceptData { uuid: Uuid { bits: 7 } };
    let mut bytes = encode_connection_accept(&d);
    bytes.push(0);
    assert_eq!(decode_connection_accept(&bytes), Err(CodecError::Malformed));
    assert_eq!(decode_connection_accept(&bytes[..15]), Err(CodecError::Malformed));
}

#[test]
fn new_client_round_trip() {
    let d = NewClientData { name: b"player one".to_vec(), uuid: Uuid { bits: 42 } };
    let bytes = encode_new_client(&d);
    let back = decode_new_client(&bytes).unwrap();
    assert_eq!(back.uuid, d.uuid);
    assert_eq!(back.name, d.name);
}

#[test]
fn new_client_round_trip_empty_name() {
    let d = NewClientData { name: Vec::new(), uuid: Uuid { bits: u128::MAX } };
    let bytes = encode_new_client(&d);
    assert_eq!(bytes.len(), 20);
    let back = decode_new_client(&bytes).unwrap();
    assert_eq!(back.uuid, d.uuid);
    assert!(back.name.is_empty());
}

#[test]
fn new_client_rejects_length_mismatch() {
    let d = NewClientData { name: b"ab".to_vec(), uuid: Uuid { bits: 1 } };
    let mut bytes = encode_new_client(&d);
    bytes.push(0xFF);
    assert!(matches!(decode_new_client(&bytes), Err(CodecError::Malformed)));
    assert!(matches!(decode_new_client(&bytes[..4]), Err(CodecError::Malformed)));
}

#[test]
fn new_replicated_round_trip() {
    let d = NewReplicatedData {
        owner_id: Uuid { bits: 11 },
        entity_id: Uuid { bits: 22 },
        entity_type: b"crate_model".to_vec(),
    };
    let bytes = encode_new_replicated(&d);
    let back = decode_new_replicated(&bytes).unwrap();
    assert_eq!(back.owner_id, d.owner_id);
    assert_eq!(back.entity_id, d.entity_id);
    assert_eq!(back.entity_type, d.entity_type);
}

#[test]
fn new_replicated_rejects_truncation() {
    let d = NewReplicatedData {
        owner_id: Uuid { bits: 11 },
        entity_id: Uuid { bits: 22 },
        entity_type: b"x".to_vec(),
    };
    let bytes = encode_new_replicated(&d);
    assert!(matches!(
        decode_new_replicated(&bytes[..bytes.len() - 1]),
        Err(CodecError::Malformed)
    ));
}

#[test]
fn transform_message_round_trip() {
    let d = TransformMessage { component_id: Uuid { bits: 99 }, transform: sample_transform() };
    let bytes = encode_transform_message(&d);
    assert_eq!(bytes.len(), 56);
    let back = decode_transform_message(&bytes).unwrap();
    assert_eq!(back, d);
}

#[test]
fn player_input_round_trip() {
    let d = PlayerInputData {
        entity_id: Uuid { bits: 5 },
        rotation: QuatBits { x: 10, y: 20, z: 30, w: 40 },
        input: PlayerInputFlags { bits: 0b101_0101 },
    };
    let bytes = encode_player_input(&d);
    assert_eq!(bytes.len(), 33);
    let back = decode_player_input(&bytes).unwrap();
    assert_eq!(back, d);
}

#[test]
fn packet_round_trip_plain_tag() {
    let p = RawNetworkMessagePacket {
        message_type: MessageType::ConnectionRequest,
        payload: vec![1, 2, 3, 4],
    };
    let bytes = encode_packet(&p);
    let back = decode_packet(&bytes).unwrap();
    assert!(matches!(back.message_type, MessageType::ConnectionRequest));
    assert_eq!(back.payload, p.payload);
}

#[test]
fn packet_round_trip_custom_tag() {
    let p = RawNetworkMessagePacket {
        message_type: MessageType::ComponentCustom(b"health".to_vec()),
        payload: vec![9, 8, 7],
    };
    let bytes = encode_packet(&p);
    let back = decode_packet(&bytes).unwrap();
    match back.message_type {
        MessageType::ComponentCustom(kind) => assert_eq!(kind, b"health".to_vec()),
        other => panic!("wrong message type: {:?}", other),
    }
    assert_eq!(back.payload, p.payload);
}

#[test]
fn packet_round_trip_empty_payload() {
    let p = RawNetworkMessagePacket { message_type: MessageType::ChatMessage, payload: vec![] };
    let bytes = encode_packet(&p);
    let back = decode_packet(&bytes).unwrap();
    assert!(matches!(back.message_type, MessageType::ChatMessage));
    assert!(back.payload.is_empty());
}

#[test]
fn packet_rejects_unknown_tag_and_stray_kind_bytes() {
    // tag 250 names no message type
    let bytes = vec![250, 0, 0, 0, 0];
    assert_eq!(decode_packet(&bytes).unwrap_err(), CodecError::Malformed);
    // a non-custom tag followed by kind bytes is not canonical
    let bytes = vec![1, 2, 0, 0, 0, 0xAA, 0xBB];
    assert_eq!(decode_packet(&bytes).unwrap_err(), CodecError::Malformed);
    // too short for the fixed header
    assert_eq!(decode_packet(&[1, 0, 0]).unwrap_err(), CodecError::Malformed);
}

#[test]
fn frames_survive_arbitrary_stream_chunking() {
    let p1 = encode_packet(&RawNetworkMessagePacket {
        message_type: MessageType::ConnectionKeepAlive,
        payload: vec![],
    });
    let p2 = encode_packet(&RawNetworkMessagePacket {
        message_type: MessageType::ChatMessage,
        payload: b"hello there".to_vec(),
    });
    let mut stream = encode_frame(&p1);
    stream.extend_from_slice(&encode_frame(&p2));

    // feed the stream one byte at a time, as misaligned as a read can be
    let mut buf = StreamBuffer::new();
    let mut frames: Vec<Vec<u8>> = Vec::new();
    for b in stream {
        buf.feed(&[b]);
        while let Some(f) = buf.next_frame() {
            frames.push(f);
        }
    }
    assert_eq!(frames.len(), 2);
    assert_eq!(frames[0], p1);
    assert_eq!(frames[1], p2);
    assert!(buf.next_frame().is_none());
}

#[test]
fn incomplete_frame_stays_buffered() {
    let p = encode_packet(&RawNetworkMessagePacket {
        message_type: MessageType::ChatMessage,
        payload: vec![1, 2, 3],
    });
    let framed = encode_frame(&p);
    let mut buf = StreamBuffer::new();
    buf.feed(&framed[..framed.len() - 1]);
    assert!(buf.next_frame().is_none());
    buf.feed(&framed[framed.len() - 1..]);
    assert_eq!(buf.next_frame().unwrap(), p);
}
