//! Three numbers: a point, a direction or a colour.

use vstd::prelude::*;
use crate::scalar::Scalar;

verus! {

/// The pattern of `1.0e-8`, below which a component counts as zero.
pub const NEAR_ZERO_BITS: u64 = 0x3e45_798e_e230_8c3a;

/// A vector of three binary64 numbers.
#[derive(Clone, Copy, Debug, PartialEq, Eq, Structural)]
pub struct Vec3 {
    pub x: Scalar,
    pub y: Scalar,
    pub z: Scalar,
}

/// A point in space.
pub type Point3 = Vec3;

impl Vec3 {
    /// The vector with every component negated.
    pub open spec fn neg_spec(self) -> Vec3 {
        Vec3 { x: self.x.neg_spec(), y: self.y.neg_spec(), z: self.z.neg_spec() }
    }

    /// The vector with the same number in every component.
    pub open spec fn splat_spec(v: Scalar) -> Vec3 {
        Vec3 { x: v, y: v, z: v }
    }

    /// Whether every component is smaller in size than `1.0e-8`.
    pub open spec fn near_zero(self) -> bool {
        let s = Scalar { bits: NEAR_ZERO_BITS };
        self.x.abs_spec().lt_spec(s) && self.y.abs_spec().lt_spec(s) && self.z.abs_spec().lt_spec(
            s,
        )
    }

    /// The vector with the given components.
    pub fn new(x: Scalar, y: Scalar, z: Scalar) -> (r: Vec3)
        ensures
            r == (Vec3 { x, y, z }),
    {
        Vec3 { x, y, z }
    }

    /// The vector with `v` in every component.
    pub fn splat(v: Scalar) -> (r: Vec3)
        ensures
            r == Vec3::splat_spec(v),
    {
        Vec3 { x: v, y: v, z: v }
    }

    /// `-self`.
    pub fn neg(self) -> (r: Vec3)
        ensures
            r == self.neg_spec(),
    {
        Vec3 { x: self.x.neg(), y: self.y.neg(), z: self.z.neg() }
    }
}

/// Whether the vector is too close to zero in every dimension to serve as a
/// direction.
pub fn vec3_near_zero(vec: &Vec3) -> (r: bool)
    ensures
        r == vec.near_zero(),
{
    let s = Scalar::from_bits(NEAR_ZERO_BITS);
    vec.x.abs().lt(s) && vec.y.abs().lt(s) && vec.z.abs().lt(s)
}

/// A vector and its negation are near zero together, and a vector with a
/// NaN component never is.
pub proof fn lemma_near_zero_symmetric(v: Vec3)
    ensures
        v.neg_spec().near_zero() == v.near_zero(),
        v.x.nan() || v.y.nan() || v.z.nan() ==> !v.near_zero(),
{
}

} // verus!
