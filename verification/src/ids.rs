//! Identifiers: 128-bit UUIDs carried as raw bits.

use vstd::prelude::*;

verus! {

/// A 128-bit universally unique identifier, carried as its raw bits.
///
/// The nil value (all bits zero) stands for "the server" as an owner and for
/// "not yet assigned" as a client identity.
#[derive(Clone, Copy, PartialEq, Eq, Structural, Debug)]
pub struct Uuid {
    pub bits: u128,
}

impl Uuid {
    /// The nil identifier as a spec value.
    pub open spec fn nil_id() -> Uuid {
        Uuid { bits: 0 }
    }

    /// The nil identifier: server-owned / unassigned.
    pub fn nil() -> (r: Uuid)
        ensures
            r == Uuid::nil_id(),
    {
        Uuid { bits: 0 }
    }

    pub open spec fn spec_is_nil(self) -> bool {
        self.bits == 0
    }

    pub fn is_nil(&self) -> (r: bool)
        ensures
            r == self.spec_is_nil(),
    {
        self.bits == 0
    }
}

/// Whether `id` occurs in the list.
pub fn uuid_list_contains(v: &Vec<Uuid>, id: Uuid) -> (r: bool)
    ensures
        r == v@.contains(id),
{
    let mut i: usize = 0;
    while i < v.len()
        invariant
            i <= v@.len(),
            forall|k: int| 0 <= k < i ==> v@[k] != id,
        decreases v@.len() - i,
    {
        if v[i].bits == id.bits {
            return true;
        }
        i = i + 1;
    }
    false
}

/// Relies on `uuid::Uuid::new_v4`: returns the raw bits of a freshly drawn
/// random version-4 UUID.  Randomness promises nothing about the value drawn,
/// but the version and variant bits that the format fixes make it nonzero.
#[verifier::external_body]
pub(crate) fn random_uuid_bits() -> (r: u128)
    ensures
        r != 0,
{
    uuid::Uuid::new_v4().as_u128()
}

} // verus!
