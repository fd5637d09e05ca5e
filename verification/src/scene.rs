//! How the field of small spheres is laid out.

use vstd::prelude::*;
use crate::scalar::Scalar;

verus! {

/// The pattern of `0.8`: below it a small sphere is diffuse.
pub const DIFFUSE_BELOW_BITS: u64 = 0x3fe9_9999_9999_999a;

/// The pattern of `0.95`: below it a small sphere that is not diffuse is
/// metal.
pub const METAL_BELOW_BITS: u64 = 0x3fee_6666_6666_6666;

/// The pattern of `0.9`: a small sphere keeps more than this distance from
/// the large one at the front.
pub const CLEARANCE_BITS: u64 = 0x3fec_cccc_cccc_cccd;

/// The kind of surface of a small sphere.
#[derive(Clone, Copy, Debug, PartialEq, Eq, Structural)]
pub enum Surface {
    Diffuse,
    Metal,
    Glass,
}

/// The surface for a draw from `[0, 1)`: diffuse for four draws in five,
/// metal for the next three in twenty, glass for the last one in twenty.
pub open spec fn choose_surface_spec(num: Scalar) -> Surface {
    if num.lt_spec(Scalar { bits: DIFFUSE_BELOW_BITS }) {
        Surface::Diffuse
    } else if num.lt_spec(Scalar { bits: METAL_BELOW_BITS }) {
        Surface::Metal
    } else {
        Surface::Glass
    }
}

/// The kind of surface that a small sphere gets for the draw `num`.
pub fn choose_surface(num: Scalar) -> (r: Surface)
    ensures
        r == choose_surface_spec(num),
{
    if num.lt(Scalar::from_bits(DIFFUSE_BELOW_BITS)) {
        Surface::Diffuse
    } else if num.lt(Scalar::from_bits(METAL_BELOW_BITS)) {
        Surface::Metal
    } else {
        Surface::Glass
    }
}

/// Whether a small sphere whose centre lies at `distance` from the centre
/// of the large sphere at the front is placed: only when the distance is
/// above `0.9`.
pub fn keeps_clear(distance: Scalar) -> (r: bool)
    ensures
        r == (Scalar { bits: CLEARANCE_BITS }).lt_spec(distance),
{
    distance.gt(Scalar::from_bits(CLEARANCE_BITS))
}

/// A larger draw never gives a surface that comes earlier in the order
/// diffuse, metal, glass.
pub proof fn lemma_surface_follows_draw(a: Scalar, b: Scalar)
    requires
        a.le_spec(b),
    ensures
        choose_surface_spec(a) == Surface::Glass ==> choose_surface_spec(b) == Surface::Glass,
        choose_surface_spec(b) == Surface::Diffuse ==> choose_surface_spec(a) == Surface::Diffuse,
{
}

} // verus!
