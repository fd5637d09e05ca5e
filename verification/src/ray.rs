//! A ray: the points `origin + t * direction`.

use vstd::prelude::*;
use crate::scalar::Scalar;
use crate::vec3::{Point3, Vec3};

verus! {

/// A half-line through space, fixed once made.
#[derive(Clone, Copy, Debug, PartialEq, Eq, Structural)]
pub struct Ray {
    pub origin: Point3,
    pub direction: Vec3,
}

impl Ray {
    /// The ray from `orig` along `dir`.
    pub fn new(orig: Point3, dir: Vec3) -> (r: Ray)
        ensures
            r.origin == orig,
            r.direction == dir,
    {
        Ray { origin: orig, direction: dir }
    }
}

impl Default for Ray {
    /// The ray from the origin with no direction.
    fn default() -> (r: Ray)
        ensures
            r.origin == Vec3::splat_spec(Scalar::zero_spec()),
            r.direction == Vec3::splat_spec(Scalar::zero_spec()),
    {
        Ray { origin: Vec3::splat(Scalar::zero()), direction: Vec3::splat(Scalar::zero()) }
    }
}

} // verus!
