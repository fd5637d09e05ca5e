//! Which random candidates are kept.

use vstd::prelude::*;
use crate::scalar::Scalar;
use crate::vec3::Vec3;

verus! {

/// Whether a candidate of this squared length lies strictly inside the unit
/// sphere.
pub open spec fn inside_unit_sphere(length_squared: Scalar) -> bool {
    length_squared.lt_spec(Scalar::one_spec())
}

/// One round of drawing a random unit vector. A candidate is drawn with
/// each component uniform in `[-1, 1)`; `length_squared` is its squared
/// length and `normalized` the candidate scaled to length one. The
/// candidate is kept where it lies inside the unit sphere; where it does
/// not, another has to be drawn.
pub fn random_vec3_unit(length_squared: Scalar, normalized: Vec3) -> (r: Option<Vec3>)
    ensures
        r == if inside_unit_sphere(length_squared) {
            Some(normalized)
        } else {
            None
        },
{
    if length_squared.lt(Scalar::one()) {
        Some(normalized)
    } else {
        None
    }
}

/// One round of drawing a random point of the unit disc. The candidate `p`
/// has `x` and `y` uniform in `[-1, 1)` and `z` zero; `length_squared` is its
/// squared length. It is kept where it lies inside the disc; where it does
/// not, another has to be drawn.
pub fn random_vec3_on_unit_disc(p: Vec3, length_squared: Scalar) -> (r: Option<Vec3>)
    ensures
        r == if inside_unit_sphere(length_squared) {
            Some(p)
        } else {
            None
        },
{
    if length_squared.lt(Scalar::one()) {
        Some(p)
    } else {
        None
    }
}

/// A random unit vector turned into the hemisphere of a normal.
/// `on_unit_sphere` is a random unit vector and `facing` the dot product of
/// the normal with it: the vector is kept where that is above zero, and
/// negated where it is not.
pub fn random_vec3_on_hempishere(on_unit_sphere: Vec3, facing: Scalar) -> (r: Vec3)
    ensures
        r == if Scalar::zero_spec().lt_spec(facing) {
            on_unit_sphere
        } else {
            on_unit_sphere.neg_spec()
        },
{
    if facing.gt(Scalar::zero()) {
        on_unit_sphere
    } else {
        on_unit_sphere.neg()
    }
}

} // verus!
