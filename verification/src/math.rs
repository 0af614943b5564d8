//! Vectors, rotations and transforms, carried by bit pattern.
//!
//! Every scalar is the IEEE-754 binary64 bit pattern of a real number. The
//! library moves these patterns around and compares them for equality of
//! representation; it never does arithmetic on them.

use vstd::prelude::*;

verus! {

/// Bit pattern of `0.0`.
pub const ZERO: u64 = 0;

/// Bit pattern of `1.0`.
pub const ONE: u64 = 0x3FF0_0000_0000_0000;

/// Three scalars.
#[derive(Clone, Copy, Debug, PartialEq, Eq, Hash, Structural)]
pub struct Vec3 {
    pub x: u64,
    pub y: u64,
    pub z: u64,
}

/// A rotation as a quaternion `x i + y j + z k + w`.
#[derive(Clone, Copy, Debug, PartialEq, Eq, Hash, Structural)]
pub struct Quat {
    pub x: u64,
    pub y: u64,
    pub z: u64,
    pub w: u64,
}

/// Placement of a node or of a shape in its parent's frame.
#[derive(Clone, Copy, Debug, PartialEq, Eq, Hash, Structural)]
pub struct Transform {
    pub translation: Vec3,
    pub rotation: Quat,
    pub scale: Vec3,
}

impl Vec3 {
    pub open spec fn spec_new(x: u64, y: u64, z: u64) -> Vec3 {
        Vec3 { x, y, z }
    }

    #[verifier::when_used_as_spec(spec_new)]
    pub fn new(x: u64, y: u64, z: u64) -> (v: Vec3)
        ensures
            v == Vec3::spec_new(x, y, z),
    {
        Vec3 { x, y, z }
    }

    /// The vector `(0, 0, 0)`.
    pub open spec fn spec_zero() -> Vec3 {
        Vec3 { x: ZERO, y: ZERO, z: ZERO }
    }

    #[verifier::when_used_as_spec(spec_zero)]
    pub fn zero() -> (v: Vec3)
        ensures
            v == Vec3::spec_zero(),
    {
        Vec3 { x: ZERO, y: ZERO, z: ZERO }
    }

    /// The vector `(1, 1, 1)`.
    pub open spec fn spec_one() -> Vec3 {
        Vec3 { x: ONE, y: ONE, z: ONE }
    }

    #[verifier::when_used_as_spec(spec_one)]
    pub fn one() -> (v: Vec3)
        ensures
            v == Vec3::spec_one(),
    {
        Vec3 { x: ONE, y: ONE, z: ONE }
    }
}

impl Quat {
    pub open spec fn spec_new(x: u64, y: u64, z: u64, w: u64) -> Quat {
        Quat { x, y, z, w }
    }

    #[verifier::when_used_as_spec(spec_new)]
    pub fn new(x: u64, y: u64, z: u64, w: u64) -> (q: Quat)
        ensures
            q == Quat::spec_new(x, y, z, w),
    {
        Quat { x, y, z, w }
    }

    /// The rotation that turns nothing: `(0, 0, 0, 1)`.
    pub open spec fn spec_identity() -> Quat {
        Quat { x: ZERO, y: ZERO, z: ZERO, w: ONE }
    }

    #[verifier::when_used_as_spec(spec_identity)]
    pub fn identity() -> (q: Quat)
        ensures
            q == Quat::spec_identity(),
    {
        Quat { x: ZERO, y: ZERO, z: ZERO, w: ONE }
    }
}

impl Transform {
    /// No translation, no rotation, unit scale.
    pub open spec fn spec_identity() -> Transform {
        Transform {
            translation: Vec3::spec_zero(),
            rotation: Quat::spec_identity(),
            scale: Vec3::spec_one(),
        }
    }

    #[verifier::when_used_as_spec(spec_identity)]
    pub fn identity() -> (t: Transform)
        ensures
            t == Transform::spec_identity(),
    {
        Transform { translation: Vec3::zero(), rotation: Quat::identity(), scale: Vec3::one() }
    }
}

} // verus!
