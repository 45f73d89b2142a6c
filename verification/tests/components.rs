use hawknet::components::{
    Movement, PlayerInputFlags, QuatBits, Transform, Vec3Bits, INPUT_CTRL, INPUT_FORWARD,
    INPUT_JUMP, INPUT_SHIFT,
};
use hawknet::ids::Uuid;
use hawknet::msg::{Client, NetAddr, NetworkPacketOut};

#[test]
fn default_transform_is_the_resting_pose() {
    let t = Transform::default();
    assert_eq!(t.pos, Vec3Bits { x: 0, y: 0, z: 0 });
    // 0x3F800000 is the bit pattern of the 32-bit float 1.0
    assert_eq!(t.rot, QuatBits { x: 0, y: 0, z: 0, w: 0x3F80_0000 });
    assert_eq!(t.scale, Vec3Bits { x: 0x3F80_0000, y: 0x3F80_0000, z: 0x3F80_0000 });
    assert_eq!(f32::from_bits(t.rot.w), 1.0);
    assert_eq!(f32::from_bits(t.scale.y), 1.0);
}

#[test]
fn input_flags_hold_the_keys_set() {
    let mut f = PlayerInputFlags::empty();
    assert!(!f.contains(INPUT_FORWARD));
    f.insert(INPUT_FORWARD);
    f.insert(INPUT_JUMP);
    assert!(f.contains(INPUT_FORWARD));
    assert!(f.contains(INPUT_JUMP));
    assert!(!f.contains(INPUT_CTRL));
    assert!(!f.held_shift());
    f.insert(INPUT_SHIFT);
    assert!(f.held_shift());
    assert!(!f.held_control());
}

#[test]
fn jumps_refill_on_the_ground_and_run_out_in_the_air() {
    let mut m = Movement { max_jumps: 2, ..Movement::default() };
    // on the ground the budget refills and one jump is spent
    assert!(m.can_jump(true));
    m.consume_jump(true);
    assert_eq!(m.num_jumps_remaining, 1);
    // in the air the second jump is available, then none
    assert!(m.can_jump(false));
    m.consume_jump(false);
    assert_eq!(m.num_jumps_remaining, 0);
    assert!(!m.can_jump(false));
    m.consume_jump(false);
    assert_eq!(m.num_jumps_remaining, 0);
    // touching down again refills
    assert!(m.can_jump(true));
    // with no jumps configured nothing is ever available
    let mut grounded_lead = Movement::default();
    assert!(!grounded_lead.can_jump(true));
    grounded_lead.consume_jump(true);
    assert_eq!(grounded_lead.num_jumps_remaining, 0);
}

#[test]
fn nil_identity_marks_the_server() {
    let nil = Uuid::nil();
    assert!(nil.is_nil());
    assert_eq!(nil, Uuid { bits: 0 });
    assert!(!Uuid { bits: 1 }.is_nil());
}

#[test]
fn default_envelope_and_client_are_blank() {
    let p = NetworkPacketOut::default();
    assert!(p.net_id.is_nil());
    assert!(matches!(p.message_type, hawknet::msg::MessageType::Unknown));
    assert!(p.data.is_empty());
    let c = Client::default();
    assert!(c.client_id.is_nil());
    assert_eq!(c.addr, NetAddr { ip: 0, port: 0 });
}
