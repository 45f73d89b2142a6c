//! The components that the replication layer reads and writes.
//!
//! Coordinates and orientations are carried as the IEEE-754 bit patterns of
//! the original 32-bit floats.  The replication layer never computes with
//! them — it copies, transports and overwrites them — so holding the raw
//! bits keeps every value exactly while leaving floating-point arithmetic
//! to the physics step, which is outside this crate.

use vstd::prelude::*;

use crate::ids::Uuid;

verus! {

/// The bit pattern of the 32-bit float `1.0`.
pub const F32_ONE_BITS: u32 = 0x3F80_0000;

/// A 3-vector of 32-bit floats, each carried as its bit pattern.
#[derive(Clone, Copy, PartialEq, Eq, Structural, Debug)]
pub struct Vec3Bits {
    pub x: u32,
    pub y: u32,
    pub z: u32,
}

impl Vec3Bits {
    /// All three components zero (`0.0` has the all-zero bit pattern).
    pub open spec fn zero() -> Vec3Bits {
        Vec3Bits { x: 0, y: 0, z: 0 }
    }

    /// All three components `1.0`.
    pub open spec fn one() -> Vec3Bits {
        Vec3Bits { x: F32_ONE_BITS, y: F32_ONE_BITS, z: F32_ONE_BITS }
    }
}

/// A quaternion of 32-bit floats, each carried as its bit pattern.
#[derive(Clone, Copy, PartialEq, Eq, Structural, Debug)]
pub struct QuatBits {
    pub x: u32,
    pub y: u32,
    pub z: u32,
    pub w: u32,
}

impl QuatBits {
    /// The identity rotation `(0, 0, 0, 1)`.
    pub open spec fn identity() -> QuatBits {
        QuatBits { x: 0, y: 0, z: 0, w: F32_ONE_BITS }
    }
}

/// Position, orientation and scale of one entity.
///
/// The coordinate system is right handed: -z forward, y up, x right.
#[derive(Clone, Copy, PartialEq, Eq, Structural, Debug)]
pub struct Transform {
    pub pos: Vec3Bits,
    pub rot: QuatBits,
    pub scale: Vec3Bits,
}

impl Transform {
    /// The resting pose: origin, identity rotation, unit scale.
    pub open spec fn identity() -> Transform {
        Transform { pos: Vec3Bits::zero(), rot: QuatBits::identity(), scale: Vec3Bits::one() }
    }
}

impl Default for Transform {
    fn default() -> (r: Self)
        ensures
            r == Transform::identity(),
    {
        Transform {
            pos: Vec3Bits { x: 0, y: 0, z: 0 },
            rot: QuatBits { x: 0, y: 0, z: 0, w: F32_ONE_BITS },
            scale: Vec3Bits { x: F32_ONE_BITS, y: F32_ONE_BITS, z: F32_ONE_BITS },
        }
    }
}

/// The fixed set of held input keys, packed into one byte.
#[derive(Clone, Copy, PartialEq, Eq, Structural, Debug)]
pub struct PlayerInputFlags {
    pub bits: u8,
}

/// Flag bit: move forward.
pub const INPUT_FORWARD: u8 = 1;
/// Flag bit: move back.
pub const INPUT_BACK: u8 = 1 << 1;
/// Flag bit: strafe left.
pub const INPUT_LEFT: u8 = 1 << 2;
/// Flag bit: strafe right.
pub const INPUT_RIGHT: u8 = 1 << 3;
/// Flag bit: jump.
pub const INPUT_JUMP: u8 = 1 << 4;
/// Flag bit: shift (boost) held.
pub const INPUT_SHIFT: u8 = 1 << 5;
/// Flag bit: control (slow) held.
pub const INPUT_CTRL: u8 = 1 << 6;

impl PlayerInputFlags {
    /// Whether every bit of `flag` is set.
    pub open spec fn spec_contains(self, flag: u8) -> bool {
        self.bits & flag == flag
    }

    /// No key held.
    pub open spec fn empty_flags() -> PlayerInputFlags {
        PlayerInputFlags { bits: 0 }
    }

    pub fn empty() -> (r: PlayerInputFlags)
        ensures
            r == PlayerInputFlags::empty_flags(),
    {
        PlayerInputFlags { bits: 0 }
    }

    pub fn contains(&self, flag: u8) -> (r: bool)
        ensures
            r == self.spec_contains(flag),
    {
        self.bits & flag == flag
    }

    /// Sets every bit of `flag`.
    pub fn insert(&mut self, flag: u8)
        ensures
            final(self).bits == old(self).bits | flag,
    {
        self.bits = self.bits | flag;
    }

    pub fn held_shift(&self) -> (r: bool)
        ensures
            r == self.spec_contains(INPUT_SHIFT),
    {
        self.contains(INPUT_SHIFT)
    }

    pub fn held_control(&self) -> (r: bool)
        ensures
            r == self.spec_contains(INPUT_CTRL),
    {
        self.contains(INPUT_CTRL)
    }
}

/// Movement intent of one entity.
///
/// On the server the two `req_` fields are written by the player input
/// handler and consumed by the physics step, the sole writer of the
/// resulting transform.  On a client they hold the locally collected intent
/// that is next sent to the server.
#[derive(Clone, Copy, Debug)]
pub struct Movement {
    pub req_rotation: Option<QuatBits>,
    pub req_movement: Option<PlayerInputFlags>,
    /// Consecutive jumps allowed; 2 allows jumping once while in the air.
    pub max_jumps: u8,
    /// Jumps still available.
    pub num_jumps_remaining: u8,
}

impl Movement {
    /// The resting intent: nothing requested, no jumps configured.
    pub open spec fn initial() -> Movement {
        Movement { req_rotation: None, req_movement: None, max_jumps: 0, num_jumps_remaining: 0 }
    }

    pub open spec fn spec_can_jump(self, grounded: bool) -> bool {
        if grounded {
            self.max_jumps > 0
        } else {
            self.num_jumps_remaining > 0
        }
    }

    pub fn can_jump(&self, grounded: bool) -> (r: bool)
        ensures
            r == self.spec_can_jump(grounded),
    {
        if grounded && self.max_jumps > 0 {
            true
        } else if !grounded && self.num_jumps_remaining > 0 {
            true
        } else {
            false
        }
    }

    /// The movement after one jump is consumed: touching the ground refills
    /// the budget, and one jump is then spent if any is available.
    pub open spec fn spec_consume_jump(self, grounded: bool) -> Movement {
        let refilled = if grounded {
            self.max_jumps
        } else {
            self.num_jumps_remaining
        };
        Movement {
            num_jumps_remaining: if refilled == 0 {
                0
            } else {
                (refilled - 1) as u8
            },
            ..self
        }
    }

    pub fn consume_jump(&mut self, grounded: bool)
        ensures
            *final(self) == old(self).spec_consume_jump(grounded),
    {
        if grounded {
            self.num_jumps_remaining = self.max_jumps;
        }
        if self.num_jumps_remaining == 0 {
            return;
        }
        self.num_jumps_remaining = self.num_jumps_remaining - 1;
    }
}

impl Default for Movement {
    fn default() -> (r: Self)
        ensures
            r == Movement::initial(),
    {
        Movement { req_rotation: None, req_movement: None, max_jumps: 0, num_jumps_remaining: 0 }
    }
}

/// Replication bookkeeping attached to any entity mirrored across the
/// network.
#[derive(Clone, Debug)]
pub struct NetworkReplicated {
    /// Identity of the object, globally unique for the session lifetime.
    pub net_id: Uuid,
    /// Identity of the client who owns input intent on this object;
    /// nil means the server owns it.
    pub owner_id: Uuid,
    /// Freeform tag naming which kind of entity to spawn on the game side.
    pub entity_type: Vec<u8>,
}

/// Marker for the entity whose view the local player controls.
#[derive(Clone, Copy, Debug, Default)]
pub struct Camera;

/// The input collected on a client during one tick: the held keys and the
/// absolute desired orientation.
#[derive(Clone, Copy, PartialEq, Eq, Structural, Debug)]
pub struct PlayerInput {
    pub flags: PlayerInputFlags,
    pub rotation: QuatBits,
}

} // verus!
