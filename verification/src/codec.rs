//! The canonical binary codec.
//!
//! One compact binary format is used consistently by both ends; there is no
//! self-describing schema, so client and server must agree on the schema
//! version out of band.  All integers are little-endian; identifiers are 16
//! raw bytes; a variable-length byte string is a 4-byte length followed by
//! its bytes.  Every decoder accepts exactly the encodings its encoder
//! produces and rejects everything else as malformed.

use vstd::bytes::{
    lemma_auto_spec_u128_to_from_le_bytes, lemma_auto_spec_u32_to_from_le_bytes,
    spec_u128_from_le_bytes, spec_u128_to_le_bytes, spec_u32_from_le_bytes,
    spec_u32_to_le_bytes, u128_from_le_bytes, u128_to_le_bytes, u32_from_le_bytes,
    u32_to_le_bytes,
};
use vstd::prelude::*;
use vstd::slice::slice_subrange;

use crate::components::{PlayerInputFlags, QuatBits, Transform, Vec3Bits};
use crate::ids::Uuid;
use crate::msg::{MessageType, MessageTypeView, RawNetworkMessagePacket, RawPacketView};

verus! {

/// Why a buffer was rejected.  A malformed message is discarded by its
/// handler; the connection is not torn down.
#[derive(Clone, Copy, PartialEq, Eq, Structural, Debug)]
pub enum CodecError {
    /// The bytes are not an encoding this codec produces.
    Malformed,
}

// ---------------------------------------------------------------------
// Low-level pieces: integers, identifiers, byte strings.
// ---------------------------------------------------------------------

/// Encoding of a 32-bit integer: 4 bytes, little-endian.
pub open spec fn enc_u32(x: u32) -> Seq<u8> {
    spec_u32_to_le_bytes(x)
}

/// Encoding of an identifier: its 128 bits as 16 bytes, little-endian.
pub open spec fn enc_uuid(u: Uuid) -> Seq<u8> {
    spec_u128_to_le_bytes(u.bits)
}

/// The identifier read back from 16 bytes.
pub open spec fn dec_uuid(b: Seq<u8>) -> Uuid
    recommends
        b.len() == 16,
{
    Uuid { bits: spec_u128_from_le_bytes(b) }
}

/// Encoding of a variable-length byte string: 4-byte length, then the bytes.
pub open spec fn enc_bytes(b: Seq<u8>) -> Seq<u8>
    recommends
        b.len() <= u32::MAX,
{
    enc_u32(b.len() as u32) + b
}

/// Appends the little-endian bytes of `x`.
fn put_u32(out: &mut Vec<u8>, x: u32)
    ensures
        final(out)@ == old(out)@ + enc_u32(x),
{
    let mut b = u32_to_le_bytes(x);
    out.append(&mut b);
}

/// Appends the little-endian bytes of the identifier.
fn put_uuid(out: &mut Vec<u8>, u: Uuid)
    ensures
        final(out)@ == old(out)@ + enc_uuid(u),
{
    let mut b = u128_to_le_bytes(u.bits);
    out.append(&mut b);
}

/// Appends a copy of `b`.
fn put_slice(out: &mut Vec<u8>, b: &[u8])
    ensures
        final(out)@ == old(out)@ + b@,
{
    let mut i: usize = 0;
    while i < b.len()
        invariant
            i <= b@.len(),
            out@ == old(out)@ + b@.subrange(0, i as int),
        decreases b@.len() - i,
    {
        let x = b[i];
        out.push(x);
        proof {
            assert(b@.subrange(0, i + 1 as int) =~= b@.subrange(0, i as int).push(b@[i as int]));
        }
        i = i + 1;
    }
    proof {
        assert(b@.subrange(0, b@.len() as int) =~= b@);
    }
}

/// Reads the 32-bit integer at `at`.
fn take_u32(b: &[u8], at: usize) -> (r: u32)
    requires
        at + 4 <= b@.len(),
    ensures
        r == spec_u32_from_le_bytes(b@.subrange(at as int, at + 4 as int)),
{
    let n = b.len();
    u32_from_le_bytes(slice_subrange(b, at, at + 4))
}

/// Reads the identifier at `at`.
fn take_uuid(b: &[u8], at: usize) -> (r: Uuid)
    requires
        at + 16 <= b@.len(),
    ensures
        r == dec_uuid(b@.subrange(at as int, at + 16 as int)),
{
    let n = b.len();
    Uuid { bits: u128_from_le_bytes(slice_subrange(b, at, at + 16)) }
}

/// A copy of `v[from..to]` as its own vector.
pub(crate) fn copy_range(v: &[u8], from: usize, to: usize) -> (r: Vec<u8>)
    requires
        from <= to <= v@.len(),
    ensures
        r@ == v@.subrange(from as int, to as int),
{
    let mut out: Vec<u8> = Vec::new();
    let mut i: usize = from;
    while i < to
        invariant
            from <= i <= to <= v@.len(),
            out@ == v@.subrange(from as int, i as int),
        decreases to - i,
    {
        let x = v[i];
        out.push(x);
        proof {
            assert(v@.subrange(from as int, i + 1 as int) =~= v@.subrange(
                from as int,
                i as int,
            ).push(v@[i as int]));
        }
        i = i + 1;
    }
    out
}

/// A copy of the whole vector.
pub(crate) fn copy_bytes(v: &Vec<u8>) -> (r: Vec<u8>)
    ensures
        r@ == v@,
{
    let r = copy_range(v.as_slice(), 0, v.len());
    proof {
        assert(r@ =~= v@);
    }
    r
}

// ---------------------------------------------------------------------
// Fixed-width compounds: vectors, quaternions, transforms.
// ---------------------------------------------------------------------

/// Encoding of a 3-vector: x, y, z, 12 bytes.
pub open spec fn enc_vec3(v: Vec3Bits) -> Seq<u8> {
    enc_u32(v.x) + enc_u32(v.y) + enc_u32(v.z)
}

/// The 3-vector read back from 12 bytes.
pub open spec fn dec_vec3(b: Seq<u8>) -> Vec3Bits
    recommends
        b.len() == 12,
{
    Vec3Bits {
        x: spec_u32_from_le_bytes(b.subrange(0, 4)),
        y: spec_u32_from_le_bytes(b.subrange(4, 8)),
        z: spec_u32_from_le_bytes(b.subrange(8, 12)),
    }
}

/// Encoding of a quaternion: x, y, z, w, 16 bytes.
pub open spec fn enc_quat(q: QuatBits) -> Seq<u8> {
    enc_u32(q.x) + enc_u32(q.y) + enc_u32(q.z) + enc_u32(q.w)
}

/// The quaternion read back from 16 bytes.
pub open spec fn dec_quat(b: Seq<u8>) -> QuatBits
    recommends
        b.len() == 16,
{
    QuatBits {
        x: spec_u32_from_le_bytes(b.subrange(0, 4)),
        y: spec_u32_from_le_bytes(b.subrange(4, 8)),
        z: spec_u32_from_le_bytes(b.subrange(8, 12)),
        w: spec_u32_from_le_bytes(b.subrange(12, 16)),
    }
}

/// Encoding of a transform: position, rotation, scale, 40 bytes.
pub open spec fn enc_transform(t: Transform) -> Seq<u8> {
    enc_vec3(t.pos) + enc_quat(t.rot) + enc_vec3(t.scale)
}

/// The transform read back from 40 bytes.
pub open spec fn dec_transform(b: Seq<u8>) -> Transform
    recommends
        b.len() == 40,
{
    Transform {
        pos: dec_vec3(b.subrange(0, 12)),
        rot: dec_quat(b.subrange(12, 28)),
        scale: dec_vec3(b.subrange(28, 40)),
    }
}

fn put_vec3(out: &mut Vec<u8>, v: Vec3Bits)
    ensures
        final(out)@ == old(out)@ + enc_vec3(v),
{
    put_u32(out, v.x);
    put_u32(out, v.y);
    put_u32(out, v.z);
    proof {
        assert(out@ =~= old(out)@ + enc_vec3(v));
    }
}

fn put_quat(out: &mut Vec<u8>, q: QuatBits)
    ensures
        final(out)@ == old(out)@ + enc_quat(q),
{
    put_u32(out, q.x);
    put_u32(out, q.y);
    put_u32(out, q.z);
    put_u32(out, q.w);
    proof {
        assert(out@ =~= old(out)@ + enc_quat(q));
    }
}

fn put_transform(out: &mut Vec<u8>, t: Transform)
    ensures
        final(out)@ == old(out)@ + enc_transform(t),
{
    put_vec3(out, t.pos);
    put_quat(out, t.rot);
    put_vec3(out, t.scale);
    proof {
        assert(out@ =~= old(out)@ + enc_transform(t));
    }
}

fn take_vec3(b: &[u8], at: usize) -> (r: Vec3Bits)
    requires
        at + 12 <= b@.len(),
    ensures
        r == dec_vec3(b@.subrange(at as int, at + 12 as int)),
{
    let n = b.len();
    let r = Vec3Bits { x: take_u32(b, at), y: take_u32(b, at + 4), z: take_u32(b, at + 8) };
    proof {
        let w = b@.subrange(at as int, at + 12 as int);
        assert(w.subrange(0, 4) =~= b@.subrange(at as int, at + 4 as int));
        assert(w.subrange(4, 8) =~= b@.subrange(at + 4 as int, at + 8 as int));
        assert(w.subrange(8, 12) =~= b@.subrange(at + 8 as int, at + 12 as int));
    }
    r
}

fn take_quat(b: &[u8], at: usize) -> (r: QuatBits)
    requires
        at + 16 <= b@.len(),
    ensures
        r == dec_quat(b@.subrange(at as int, at + 16 as int)),
{
    let n = b.len();
    let r = QuatBits {
        x: take_u32(b, at),
        y: take_u32(b, at + 4),
        z: take_u32(b, at + 8),
        w: take_u32(b, at + 12),
    };
    proof {
        let w = b@.subrange(at as int, at + 16 as int);
        assert(w.subrange(0, 4) =~= b@.subrange(at as int, at + 4 as int));
        assert(w.subrange(4, 8) =~= b@.subrange(at + 4 as int, at + 8 as int));
        assert(w.subrange(8, 12) =~= b@.subrange(at + 8 as int, at + 12 as int));
        assert(w.subrange(12, 16) =~= b@.subrange(at + 12 as int, at + 16 as int));
    }
    r
}

fn take_transform(b: &[u8], at: usize) -> (r: Transform)
    requires
        at + 40 <= b@.len(),
    ensures
        r == dec_transform(b@.subrange(at as int, at + 40 as int)),
{
    let n = b.len();
    let r = Transform {
        pos: take_vec3(b, at),
        rot: take_quat(b, at + 12),
        scale: take_vec3(b, at + 28),
    };
    proof {
        let w = b@.subrange(at as int, at + 40 as int);
        assert(w.subrange(0, 12) =~= b@.subrange(at as int, at + 12 as int));
        assert(w.subrange(12, 28) =~= b@.subrange(at + 12 as int, at + 28 as int));
        assert(w.subrange(28, 40) =~= b@.subrange(at + 28 as int, at + 40 as int));
    }
    r
}

// ---------------------------------------------------------------------
// Payload schemas.
// ---------------------------------------------------------------------

/// Payload of a `ConnectionAccept` message: the identity the server
/// assigned to the requesting client.
#[derive(Clone, Copy, PartialEq, Eq, Structural, Debug)]
pub struct ConnectionAcceptData {
    pub uuid: Uuid,
}

/// Payload of a `NewClient` notice: the newcomer's identity and display
/// name (UTF-8 bytes).
#[derive(Clone, Debug)]
pub struct NewClientData {
    pub name: Vec<u8>,
    pub uuid: Uuid,
}

/// The spec-level value of a [`NewClientData`].
pub struct NewClientDataView {
    pub name: Seq<u8>,
    pub uuid: Uuid,
}

impl View for NewClientData {
    type V = NewClientDataView;

    open spec fn view(&self) -> NewClientDataView {
        NewClientDataView { name: self.name@, uuid: self.uuid }
    }
}

/// Payload of a `NewReplicated` notice: who owns the new entity, its
/// network identity, and the freeform tag naming what to spawn for it.
#[derive(Clone, Debug)]
pub struct NewReplicatedData {
    pub owner_id: Uuid,
    pub entity_id: Uuid,
    pub entity_type: Vec<u8>,
}

/// The spec-level value of a [`NewReplicatedData`].
pub struct NewReplicatedDataView {
    pub owner_id: Uuid,
    pub entity_id: Uuid,
    pub entity_type: Seq<u8>,
}

impl View for NewReplicatedData {
    type V = NewReplicatedDataView;

    open spec fn view(&self) -> NewReplicatedDataView {
        NewReplicatedDataView {
            owner_id: self.owner_id,
            entity_id: self.entity_id,
            entity_type: self.entity_type@,
        }
    }
}

/// Payload of a `ComponentTransform` update: the entity addressed by its
/// network identity and its current transform.
#[derive(Clone, Copy, PartialEq, Eq, Structural, Debug)]
pub struct TransformMessage {
    pub component_id: Uuid,
    pub transform: Transform,
}

/// Payload of a `PlayerInput` message: the entity the intent is for, the
/// absolute desired orientation, and the held keys.
#[derive(Clone, Copy, PartialEq, Eq, Structural, Debug)]
pub struct PlayerInputData {
    pub entity_id: Uuid,
    pub rotation: QuatBits,
    pub input: PlayerInputFlags,
}

/// Encoding of a `ConnectionAccept` payload: the identifier, 16 bytes.
pub open spec fn enc_connection_accept(d: ConnectionAcceptData) -> Seq<u8> {
    enc_uuid(d.uuid)
}

/// Decoding of a `ConnectionAccept` payload.
pub open spec fn dec_connection_accept(b: Seq<u8>) -> Option<ConnectionAcceptData> {
    if b.len() == 16 {
        Some(ConnectionAcceptData { uuid: dec_uuid(b) })
    } else {
        None
    }
}

/// Encoding of a `NewClient` payload: identifier, then the name.
pub open spec fn enc_new_client(d: NewClientDataView) -> Seq<u8>
    recommends
        d.name.len() <= u32::MAX,
{
    enc_uuid(d.uuid) + enc_bytes(d.name)
}

/// Decoding of a `NewClient` payload.
pub open spec fn dec_new_client(b: Seq<u8>) -> Option<NewClientDataView> {
    if b.len() < 20 {
        None
    } else {
        let uuid = dec_uuid(b.subrange(0, 16));
        let n = spec_u32_from_le_bytes(b.subrange(16, 20)) as int;
        if b.len() - 20 == n {
            Some(NewClientDataView { name: b.subrange(20, b.len() as int), uuid })
        } else {
            None
        }
    }
}

/// Encoding of a `NewReplicated` payload: owner, entity, then the tag.
pub open spec fn enc_new_replicated(d: NewReplicatedDataView) -> Seq<u8>
    recommends
        d.entity_type.len() <= u32::MAX,
{
    enc_uuid(d.owner_id) + enc_uuid(d.entity_id) + enc_bytes(d.entity_type)
}

/// Decoding of a `NewReplicated` payload.
pub open spec fn dec_new_replicated(b: Seq<u8>) -> Option<NewReplicatedDataView> {
    if b.len() < 36 {
        None
    } else {
        let owner_id = dec_uuid(b.subrange(0, 16));
        let entity_id = dec_uuid(b.subrange(16, 32));
        let n = spec_u32_from_le_bytes(b.subrange(32, 36)) as int;
        if b.len() - 36 == n {
            Some(NewReplicatedDataView {
                owner_id,
                entity_id,
                entity_type: b.subrange(36, b.len() as int),
            })
        } else {
            None
        }
    }
}

/// Encoding of a `ComponentTransform` payload: identifier, then the
/// transform, 56 bytes.
pub open spec fn enc_transform_message(d: TransformMessage) -> Seq<u8> {
    enc_uuid(d.component_id) + enc_transform(d.transform)
}

/// Decoding of a `ComponentTransform` payload.
pub open spec fn dec_transform_message(b: Seq<u8>) -> Option<TransformMessage> {
    if b.len() == 56 {
        Some(TransformMessage {
            component_id: dec_uuid(b.subrange(0, 16)),
            transform: dec_transform(b.subrange(16, 56)),
        })
    } else {
        None
    }
}

/// Encoding of a `PlayerInput` payload: entity, rotation, then the flag
/// byte, 33 bytes.
pub open spec fn enc_player_input(d: PlayerInputData) -> Seq<u8> {
    enc_uuid(d.entity_id) + enc_quat(d.rotation) + seq![d.input.bits]
}

/// Decoding of a `PlayerInput` payload.
pub open spec fn dec_player_input(b: Seq<u8>) -> Option<PlayerInputData> {
    if b.len() == 33 {
        Some(PlayerInputData {
            entity_id: dec_uuid(b.subrange(0, 16)),
            rotation: dec_quat(b.subrange(16, 32)),
            input: PlayerInputFlags { bits: b[32] },
        })
    } else {
        None
    }
}

// ---------------------------------------------------------------------
// Executable encoders and decoders for the payload schemas.
// ---------------------------------------------------------------------

pub fn encode_connection_accept(d: &ConnectionAcceptData) -> (r: Vec<u8>)
    ensures
        r@ == enc_connection_accept(*d),
{
    let mut out: Vec<u8> = Vec::new();
    put_uuid(&mut out, d.uuid);
    proof {
        assert(out@ =~= enc_connection_accept(*d));
    }
    out
}

pub fn decode_connection_accept(b: &[u8]) -> (r: Result<ConnectionAcceptData, CodecError>)
    ensures
        match r {
            Ok(v) => dec_connection_accept(b@) == Some(v),
            Err(_) => dec_connection_accept(b@) is None,
        },
{
    if b.len() != 16 {
        return Err(CodecError::Malformed);
    }
    let uuid = take_uuid(b, 0);
    proof {
        assert(b@.subrange(0, 16) =~= b@);
    }
    Ok(ConnectionAcceptData { uuid })
}

pub fn encode_new_client(d: &NewClientData) -> (r: Vec<u8>)
    requires
        d.name@.len() <= u32::MAX,
    ensures
        r@ == enc_new_client(d@),
{
    let mut out: Vec<u8> = Vec::new();
    put_uuid(&mut out, d.uuid);
    put_u32(&mut out, d.name.len() as u32);
    put_slice(&mut out, d.name.as_slice());
    proof {
        assert(out@ =~= enc_new_client(d@));
    }
    out
}

pub fn decode_new_client(b: &[u8]) -> (r: Result<NewClientData, CodecError>)
    ensures
        match r {
            Ok(v) => dec_new_client(b@) == Some(v@),
            Err(_) => dec_new_client(b@) is None,
        },
{
    let len = b.len();
    if len < 20 {
        return Err(CodecError::Malformed);
    }
    let uuid = take_uuid(b, 0);
    let n = take_u32(b, 16);
    if n as usize != len - 20 {
        return Err(CodecError::Malformed);
    }
    let name = copy_range(b, 20, len);
    Ok(NewClientData { name, uuid })
}

pub fn encode_new_replicated(d: &NewReplicatedData) -> (r: Vec<u8>)
    requires
        d.entity_type@.len() <= u32::MAX,
    ensures
        r@ == enc_new_replicated(d@),
{
    let mut out: Vec<u8> = Vec::new();
    put_uuid(&mut out, d.owner_id);
    put_uuid(&mut out, d.entity_id);
    put_u32(&mut out, d.entity_type.len() as u32);
    put_slice(&mut out, d.entity_type.as_slice());
    proof {
        assert(out@ =~= enc_new_replicated(d@));
    }
    out
}

pub fn decode_new_replicated(b: &[u8]) -> (r: Result<NewReplicatedData, CodecError>)
    ensures
        match r {
            Ok(v) => dec_new_replicated(b@) == Some(v@),
            Err(_) => dec_new_replicated(b@) is None,
        },
{
    let len = b.len();
    if len < 36 {
        return Err(CodecError::Malformed);
    }
    let owner_id = take_uuid(b, 0);
    let entity_id = take_uuid(b, 16);
    let n = take_u32(b, 32);
    if n as usize != len - 36 {
        return Err(CodecError::Malformed);
    }
    let entity_type = copy_range(b, 36, len);
    Ok(NewReplicatedData { owner_id, entity_id, entity_type })
}

pub fn encode_transform_message(d: &TransformMessage) -> (r: Vec<u8>)
    ensures
        r@ == enc_transform_message(*d),
{
    let mut out: Vec<u8> = Vec::new();
    put_uuid(&mut out, d.component_id);
    put_transform(&mut out, d.transform);
    proof {
        assert(out@ =~= enc_transform_message(*d));
    }
    out
}

pub fn decode_transform_message(b: &[u8]) -> (r: Result<TransformMessage, CodecError>)
    ensures
        match r {
            Ok(v) => dec_transform_message(b@) == Some(v),
            Err(_) => dec_transform_message(b@) is None,
        },
{
    if b.len() != 56 {
        return Err(CodecError::Malformed);
    }
    let component_id = take_uuid(b, 0);
    let transform = take_transform(b, 16);
    Ok(TransformMessage { component_id, transform })
}

pub fn encode_player_input(d: &PlayerInputData) -> (r: Vec<u8>)
    ensures
        r@ == enc_player_input(*d),
{
    let mut out: Vec<u8> = Vec::new();
    put_uuid(&mut out, d.entity_id);
    put_quat(&mut out, d.rotation);
    out.push(d.input.bits);
    proof {
        assert(out@ =~= enc_player_input(*d));
    }
    out
}

pub fn decode_player_input(b: &[u8]) -> (r: Result<PlayerInputData, CodecError>)
    ensures
        match r {
            Ok(v) => dec_player_input(b@) == Some(v),
            Err(_) => dec_player_input(b@) is None,
        },
{
    if b.len() != 33 {
        return Err(CodecError::Malformed);
    }
    let entity_id = take_uuid(b, 0);
    let rotation = take_quat(b, 16);
    let input = PlayerInputFlags { bits: b[32] };
    Ok(PlayerInputData { entity_id, rotation, input })
}

// ---------------------------------------------------------------------
// The packet envelope: a tag byte, the custom-kind bytes, the payload.
// ---------------------------------------------------------------------

/// The wire tag of each message type.
pub open spec fn tag_of(mt: MessageTypeView) -> u8 {
    match mt {
        MessageTypeView::Unknown => 0,
        MessageTypeView::ConnectionRequest => 1,
        MessageTypeView::ConnectionAccept => 2,
        MessageTypeView::ConnectionKeepAlive => 3,
        MessageTypeView::NewClient => 4,
        MessageTypeView::NewReplicated => 5,
        MessageTypeView::ComponentTransform => 6,
        MessageTypeView::ComponentCustom(_) => 7,
        MessageTypeView::ChatMessage => 8,
        MessageTypeView::PlayerInput => 9,
    }
}

/// The bytes naming a custom component kind; empty for every other tag.
pub open spec fn custom_tag_bytes(mt: MessageTypeView) -> Seq<u8> {
    match mt {
        MessageTypeView::ComponentCustom(t) => t,
        _ => Seq::empty(),
    }
}

/// The message type named by a wire tag.  Only the custom tag carries
/// bytes; any other tag followed by kind bytes is malformed.
pub open spec fn tag_to_message_type(tag: u8, kind: Seq<u8>) -> Option<MessageTypeView> {
    if tag == 7 {
        Some(MessageTypeView::ComponentCustom(kind))
    } else if kind.len() != 0 {
        None
    } else if tag == 0 {
        Some(MessageTypeView::Unknown)
    } else if tag == 1 {
        Some(MessageTypeView::ConnectionRequest)
    } else if tag == 2 {
        Some(MessageTypeView::ConnectionAccept)
    } else if tag == 3 {
        Some(MessageTypeView::ConnectionKeepAlive)
    } else if tag == 4 {
        Some(MessageTypeView::NewClient)
    } else if tag == 5 {
        Some(MessageTypeView::NewReplicated)
    } else if tag == 6 {
        Some(MessageTypeView::ComponentTransform)
    } else if tag == 8 {
        Some(MessageTypeView::ChatMessage)
    } else if tag == 9 {
        Some(MessageTypeView::PlayerInput)
    } else {
        None
    }
}

/// Encoding of a raw packet: the tag byte, the custom-kind bytes as a
/// length-prefixed string, then the payload to the end of the buffer.  The
/// payload carries no length of its own: its extent comes from the frame
/// (reliable stream) or the datagram boundary (unreliable socket).
pub open spec fn enc_packet(p: RawPacketView) -> Seq<u8>
    recommends
        custom_tag_bytes(p.message_type).len() <= u32::MAX,
{
    seq![tag_of(p.message_type)] + enc_bytes(custom_tag_bytes(p.message_type)) + p.payload
}

/// Decoding of a raw packet.
pub open spec fn dec_packet(b: Seq<u8>) -> Option<RawPacketView> {
    if b.len() < 5 {
        None
    } else {
        let tag = b[0];
        let n = spec_u32_from_le_bytes(b.subrange(1, 5)) as int;
        if b.len() - 5 < n {
            None
        } else {
            let kind = b.subrange(5, 5 + n);
            let payload = b.subrange(5 + n, b.len() as int);
            match tag_to_message_type(tag, kind) {
                Some(mt) => Some(RawPacketView { message_type: mt, payload }),
                None => None,
            }
        }
    }
}

/// The wire tag of a message type.
pub fn message_type_tag(mt: &MessageType) -> (r: u8)
    ensures
        r == tag_of(mt@),
{
    match mt {
        MessageType::Unknown => 0,
        MessageType::ConnectionRequest => 1,
        MessageType::ConnectionAccept => 2,
        MessageType::ConnectionKeepAlive => 3,
        MessageType::NewClient => 4,
        MessageType::NewReplicated => 5,
        MessageType::ComponentTransform => 6,
        MessageType::ComponentCustom(_) => 7,
        MessageType::ChatMessage => 8,
        MessageType::PlayerInput => 9,
    }
}

pub fn encode_packet(p: &RawNetworkMessagePacket) -> (r: Vec<u8>)
    requires
        custom_tag_bytes(p.message_type@).len() <= u32::MAX,
    ensures
        r@ == enc_packet(p@),
{
    let mut out: Vec<u8> = Vec::new();
    out.push(message_type_tag(&p.message_type));
    match &p.message_type {
        MessageType::ComponentCustom(kind) => {
            put_u32(&mut out, kind.len() as u32);
            put_slice(&mut out, kind.as_slice());
        },
        _ => {
            put_u32(&mut out, 0);
            proof {
                assert(enc_bytes(custom_tag_bytes(p.message_type@)) =~= enc_u32(0));
            }
        },
    }
    put_slice(&mut out, p.payload.as_slice());
    proof {
        assert(out@ =~= enc_packet(p@));
    }
    out
}

pub fn decode_packet(b: &[u8]) -> (r: Result<RawNetworkMessagePacket, CodecError>)
    ensures
        match r {
            Ok(v) => dec_packet(b@) == Some(v@),
            Err(_) => dec_packet(b@) is None,
        },
{
    let len = b.len();
    if len < 5 {
        return Err(CodecError::Malformed);
    }
    let tag = b[0];
    let n = take_u32(b, 1);
    if (n as usize) > len - 5 {
        return Err(CodecError::Malformed);
    }
    let n = n as usize;
    let message_type = if tag == 7 {
        MessageType::ComponentCustom(copy_range(b, 5, 5 + n))
    } else if n != 0 {
        return Err(CodecError::Malformed);
    } else if tag == 0 {
        MessageType::Unknown
    } else if tag == 1 {
        MessageType::ConnectionRequest
    } else if tag == 2 {
        MessageType::ConnectionAccept
    } else if tag == 3 {
        MessageType::ConnectionKeepAlive
    } else if tag == 4 {
        MessageType::NewClient
    } else if tag == 5 {
        MessageType::NewReplicated
    } else if tag == 6 {
        MessageType::ComponentTransform
    } else if tag == 8 {
        MessageType::ChatMessage
    } else if tag == 9 {
        MessageType::PlayerInput
    } else {
        return Err(CodecError::Malformed);
    };
    let payload = copy_range(b, 5 + n, len);
    Ok(RawNetworkMessagePacket { message_type, payload })
}

// ---------------------------------------------------------------------
// Framing on the reliable stream.
//
// Stream reads do not align with message boundaries, so each packet is
// delimited by an explicit 4-byte length prefix.
// ---------------------------------------------------------------------

/// Encoding of one frame: the packet's length, then its bytes.
pub open spec fn enc_frame(p: Seq<u8>) -> Seq<u8>
    recommends
        p.len() <= u32::MAX,
{
    enc_u32(p.len() as u32) + p
}

/// Splits buffered stream bytes into the first complete frame's contents
/// and the remainder; `None` while no complete frame has arrived.
pub open spec fn frame_split(b: Seq<u8>) -> Option<(Seq<u8>, Seq<u8>)> {
    if b.len() < 4 {
        None
    } else {
        let n = spec_u32_from_le_bytes(b.subrange(0, 4)) as int;
        if b.len() - 4 < n {
            None
        } else {
            Some((b.subrange(4, 4 + n), b.subrange(4 + n, b.len() as int)))
        }
    }
}

/// Wraps one encoded packet in a frame for the reliable stream.
pub fn encode_frame(p: &[u8]) -> (r: Vec<u8>)
    requires
        p@.len() <= u32::MAX,
    ensures
        r@ == enc_frame(p@),
{
    let mut out: Vec<u8> = Vec::new();
    put_u32(&mut out, p.len() as u32);
    put_slice(&mut out, p);
    proof {
        assert(out@ =~= enc_frame(p@));
    }
    out
}

/// Reassembles logical frames from a reliable byte stream whose reads do
/// not align with message boundaries.
pub struct StreamBuffer {
    buf: Vec<u8>,
}

impl View for StreamBuffer {
    type V = Seq<u8>;

    closed spec fn view(&self) -> Seq<u8> {
        self.buf@
    }
}

impl StreamBuffer {
    pub fn new() -> (r: StreamBuffer)
        ensures
            r@ == Seq::<u8>::empty(),
    {
        StreamBuffer { buf: Vec::new() }
    }

    /// Appends bytes as they arrive from the socket.
    pub fn feed(&mut self, b: &[u8])
        ensures
            final(self)@ == old(self)@ + b@,
    {
        put_slice(&mut self.buf, b);
    }

    /// Takes the first complete frame out of the buffer, or returns `None`
    /// and leaves the buffer unchanged while none is complete.
    pub fn next_frame(&mut self) -> (r: Option<Vec<u8>>)
        ensures
            match r {
                Some(f) => frame_split(old(self)@) == Some((f@, final(self)@)),
                None => frame_split(old(self)@) is None && final(self)@ == old(self)@,
            },
    {
        let len = self.buf.len();
        if len < 4 {
            return None;
        }
        let n = take_u32(self.buf.as_slice(), 0);
        if (n as usize) > len - 4 {
            return None;
        }
        let n = n as usize;
        let frame = copy_range(self.buf.as_slice(), 4, 4 + n);
        let rest = copy_range(self.buf.as_slice(), 4 + n, len);
        self.buf = rest;
        Some(frame)
    }
}

// ---------------------------------------------------------------------
// Round trips: decoding an encoding gives back what was encoded.
// ---------------------------------------------------------------------

/// Round trip of an identifier through its 16 bytes.
pub proof fn lemma_uuid_round_trip(u: Uuid)
    ensures
        enc_uuid(u).len() == 16,
        dec_uuid(enc_uuid(u)) == u,
{
    lemma_auto_spec_u128_to_from_le_bytes();
    assert(spec_u128_to_le_bytes(u.bits).len() == 16);
}

/// Round trip of a 3-vector through its 12 bytes.
pub proof fn lemma_vec3_round_trip(v: Vec3Bits)
    ensures
        enc_vec3(v).len() == 12,
        dec_vec3(enc_vec3(v)) == v,
{
    lemma_auto_spec_u32_to_from_le_bytes();
    let e = enc_vec3(v);
    assert(e.subrange(0, 4) =~= enc_u32(v.x));
    assert(e.subrange(4, 8) =~= enc_u32(v.y));
    assert(e.subrange(8, 12) =~= enc_u32(v.z));
}

/// Round trip of a quaternion through its 16 bytes.
pub proof fn lemma_quat_round_trip(q: QuatBits)
    ensures
        enc_quat(q).len() == 16,
        dec_quat(enc_quat(q)) == q,
{
    lemma_auto_spec_u32_to_from_le_bytes();
    let e = enc_quat(q);
    assert(e.subrange(0, 4) =~= enc_u32(q.x));
    assert(e.subrange(4, 8) =~= enc_u32(q.y));
    assert(e.subrange(8, 12) =~= enc_u32(q.z));
    assert(e.subrange(12, 16) =~= enc_u32(q.w));
}

/// Round trip of a transform through its 40 bytes.
pub proof fn lemma_transform_round_trip(t: Transform)
    ensures
        enc_transform(t).len() == 40,
        dec_transform(enc_transform(t)) == t,
{
    lemma_vec3_round_trip(t.pos);
    lemma_quat_round_trip(t.rot);
    lemma_vec3_round_trip(t.scale);
    let e = enc_transform(t);
    assert(e.subrange(0, 12) =~= enc_vec3(t.pos));
    assert(e.subrange(12, 28) =~= enc_quat(t.rot));
    assert(e.subrange(28, 40) =~= enc_vec3(t.scale));
}

/// Round trip of a `ConnectionAccept` payload.
pub proof fn lemma_connection_accept_round_trip(d: ConnectionAcceptData)
    ensures
        dec_connection_accept(enc_connection_accept(d)) == Some(d),
{
    lemma_uuid_round_trip(d.uuid);
}

/// Round trip of a `NewClient` payload, for every name that fits the
/// 4-byte length field.
pub proof fn lemma_new_client_round_trip(d: NewClientDataView)
    requires
        d.name.len() <= u32::MAX,
    ensures
        dec_new_client(enc_new_client(d)) == Some(d),
{
    lemma_uuid_round_trip(d.uuid);
    lemma_auto_spec_u32_to_from_le_bytes();
    let e = enc_new_client(d);
    assert(e.subrange(0, 16) =~= enc_uuid(d.uuid));
    assert(e.subrange(16, 20) =~= enc_u32(d.name.len() as u32));
    assert(e.subrange(20, e.len() as int) =~= d.name);
}

/// Round trip of a `NewReplicated` payload, for every entity-type tag that
/// fits the 4-byte length field.
pub proof fn lemma_new_replicated_round_trip(d: NewReplicatedDataView)
    requires
        d.entity_type.len() <= u32::MAX,
    ensures
        dec_new_replicated(enc_new_replicated(d)) == Some(d),
{
    lemma_uuid_round_trip(d.owner_id);
    lemma_uuid_round_trip(d.entity_id);
    lemma_auto_spec_u32_to_from_le_bytes();
    let e = enc_new_replicated(d);
    assert(e.subrange(0, 16) =~= enc_uuid(d.owner_id));
    assert(e.subrange(16, 32) =~= enc_uuid(d.entity_id));
    assert(e.subrange(32, 36) =~= enc_u32(d.entity_type.len() as u32));
    assert(e.subrange(36, e.len() as int) =~= d.entity_type);
}

/// Round trip of a `ComponentTransform` payload.
pub proof fn lemma_transform_message_round_trip(d: TransformMessage)
    ensures
        dec_transform_message(enc_transform_message(d)) == Some(d),
{
    lemma_uuid_round_trip(d.component_id);
    lemma_transform_round_trip(d.transform);
    let e = enc_transform_message(d);
    assert(e.subrange(0, 16) =~= enc_uuid(d.component_id));
    assert(e.subrange(16, 56) =~= enc_transform(d.transform));
}

/// Round trip of a `PlayerInput` payload.
pub proof fn lemma_player_input_round_trip(d: PlayerInputData)
    ensures
        dec_player_input(enc_player_input(d)) == Some(d),
{
    lemma_uuid_round_trip(d.entity_id);
    lemma_quat_round_trip(d.rotation);
    let e = enc_player_input(d);
    assert(e.subrange(0, 16) =~= enc_uuid(d.entity_id));
    assert(e.subrange(16, 32) =~= enc_quat(d.rotation));
    assert(e[32] == d.input.bits);
}

/// Round trip of a raw packet, for every message type whose custom-kind
/// bytes fit the 4-byte length field.
pub proof fn lemma_packet_round_trip(p: RawPacketView)
    ensures
        custom_tag_bytes(p.message_type).len() <= u32::MAX ==> dec_packet(enc_packet(p)) == Some(
            p,
        ),
{
    if custom_tag_bytes(p.message_type).len() <= u32::MAX {
        lemma_auto_spec_u32_to_from_le_bytes();
        let kind = custom_tag_bytes(p.message_type);
        let e = enc_packet(p);
        assert(e[0] == tag_of(p.message_type));
        assert(e.subrange(1, 5) =~= enc_u32(kind.len() as u32));
        assert(e.subrange(5, 5 + kind.len() as int) =~= kind);
        assert(e.subrange(5 + kind.len() as int, e.len() as int) =~= p.payload);
    }
}

/// A frame followed by later stream bytes splits back into exactly the
/// framed packet and those later bytes: framing preserves message
/// boundaries and their order on the reliable stream.
pub proof fn lemma_frame_split(p: Seq<u8>, rest: Seq<u8>)
    requires
        p.len() <= u32::MAX,
    ensures
        frame_split(enc_frame(p) + rest) == Some((p, rest)),
{
    lemma_auto_spec_u32_to_from_le_bytes();
    let b = enc_frame(p) + rest;
    assert(b.subrange(0, 4) =~= enc_u32(p.len() as u32));
    assert(b.subrange(4, 4 + p.len() as int) =~= p);
    assert(b.subrange(4 + p.len() as int, b.len() as int) =~= rest);
}

} // verus!
