//! Triples and quadruples of numbers: positions, velocities, rotations.
//!
//! The core stores these and hands them to the host, which does the
//! arithmetic. Components are bit patterns, so equality here is equality of
//! patterns.

use vstd::prelude::*;
use crate::scalar::{lemma_denotes_by_significand, Scalar};

verus! {

/// Pattern of the number one.
pub const ONE_BITS: u32 = 0x3F80_0000;

/// A vector in three dimensions.
#[derive(Clone, Copy, Debug, PartialEq, Eq, Structural)]
pub struct Vector3 {
    pub x: Scalar,
    pub y: Scalar,
    pub z: Scalar,
}

/// A rotation as a quaternion `x i + y j + z k + w`.
#[derive(Clone, Copy, Debug, PartialEq, Eq, Structural)]
pub struct Quaternion {
    pub x: Scalar,
    pub y: Scalar,
    pub z: Scalar,
    pub w: Scalar,
}

impl Vector3 {
    /// The vector whose components are all `+0`.
    pub open spec fn zero() -> Vector3 {
        Vector3 { x: Scalar { bits: 0 }, y: Scalar { bits: 0 }, z: Scalar { bits: 0 } }
    }

    /// The patterns of the three components, in the order x, y, z.
    pub open spec fn bits(self) -> Seq<u32> {
        seq![self.x.bits, self.y.bits, self.z.bits]
    }

    /// Builds a vector from the patterns of its components.
    pub fn from_bits(bits: [u32; 3]) -> (v: Vector3)
        ensures
            v.bits() == bits@,
    {
        let v = Vector3 {
            x: Scalar { bits: bits[0] },
            y: Scalar { bits: bits[1] },
            z: Scalar { bits: bits[2] },
        };
        assert(v.bits() =~= bits@);
        v
    }

    /// The patterns of the components.
    pub fn to_bits(self) -> (bits: [u32; 3])
        ensures
            bits@ == self.bits(),
    {
        let bits = [self.x.bits, self.y.bits, self.z.bits];
        assert(bits@ =~= self.bits());
        bits
    }
}

impl Quaternion {
    /// The rotation that turns nothing: `(0, 0, 0, 1)`.
    pub open spec fn identity() -> Quaternion {
        Quaternion {
            x: Scalar { bits: 0 },
            y: Scalar { bits: 0 },
            z: Scalar { bits: 0 },
            w: Scalar { bits: ONE_BITS },
        }
    }

    /// The patterns of the four components, in the order x, y, z, w.
    pub open spec fn bits(self) -> Seq<u32> {
        seq![self.x.bits, self.y.bits, self.z.bits, self.w.bits]
    }

    /// Builds a quaternion from the patterns of its components.
    pub fn from_bits(bits: [u32; 4]) -> (q: Quaternion)
        ensures
            q.bits() == bits@,
    {
        let q = Quaternion {
            x: Scalar { bits: bits[0] },
            y: Scalar { bits: bits[1] },
            z: Scalar { bits: bits[2] },
            w: Scalar { bits: bits[3] },
        };
        assert(q.bits() =~= bits@);
        q
    }

    /// The patterns of the components.
    pub fn to_bits(self) -> (bits: [u32; 4])
        ensures
            bits@ == self.bits(),
    {
        let bits = [self.x.bits, self.y.bits, self.z.bits, self.w.bits];
        assert(bits@ =~= self.bits());
        bits
    }
}

/// The scalar part of the identity rotation is the number one.
pub proof fn lemma_identity_has_scalar_part_one()
    ensures
        Quaternion::identity().w.denotes(1, 1),
        Quaternion::identity().x.is_zero(),
        Quaternion::identity().y.is_zero(),
        Quaternion::identity().z.is_zero(),
{
    vstd::arithmetic::power2::lemma2_to64();
    lemma_denotes_by_significand(Quaternion::identity().w, 1, 1, 23);
}

} // verus!
