//! What a camera decides: how high its image is, where a ray starts, and how
//! far a path is followed.

use vstd::prelude::*;
use vstd::arithmetic::div_mod::{
    lemma_basic_div, lemma_div_is_ordered, lemma_div_is_ordered_by_denominator,
};
use vstd::arithmetic::power2::{
    lemma2_to64, lemma2_to64_rest, lemma_pow2_pos, lemma_pow2_strictly_increases, pow2,
};
use vstd::bits::lemma_u64_shr_is_div;
use crate::hittable::{nearest_spec, Crossing};
use crate::interval::Interval;
use crate::scalar::{lemma_size_cut, Scalar, BINADE, SIGN_BIT};

verus! {

/// The pattern of `0.001`: a hit nearer than this to a ray's origin is the
/// surface that the ray has just left.
pub const TRACE_START_BITS: u64 = 0x3f50_624d_d2f1_a9fc;

/// The range of ray parameters in which a traced ray looks for a hit: from
/// `0.001` to infinity, both excluded.
pub open spec fn trace_range_spec() -> Interval {
    Interval { min: Scalar { bits: TRACE_START_BITS }, max: Scalar::infinity_spec() }
}

/// The range in which a traced ray looks for a hit.
pub fn trace_range() -> (r: Interval)
    ensures
        r == trace_range_spec(),
{
    Interval::new(Scalar::from_bits(TRACE_START_BITS), Scalar::infinity())
}

/// The integer part of the size of a number.
pub open spec fn integer_part(x: Scalar) -> int {
    x.size() / (pow2(1075) as int)
}

/// The integer part, from the significand.
proof fn lemma_integer_part(x: Scalar)
    ensures
        integer_part(x) == if x.exponent() >= 1075 {
            x.significand() * pow2((x.exponent() - 1075) as nat)
        } else {
            x.significand() / (pow2((1075 - x.exponent()) as nat) as int)
        },
{
    lemma2_to64();
    lemma_size_cut(x, 0);
}

/// The height of an image in pixels. `quotient` is the image's width over
/// its aspect ratio; the height is its integer part, with the nearest
/// 32-bit integer for a quotient beyond their range and zero for a NaN.
pub open spec fn image_height_spec(quotient: Scalar) -> int {
    if quotient.nan() {
        0
    } else if quotient.sign() {
        if integer_part(quotient) >= 0x8000_0000 {
            i32::MIN as int
        } else {
            -integer_part(quotient)
        }
    } else {
        if integer_part(quotient) >= 0x8000_0000 {
            i32::MAX as int
        } else {
            integer_part(quotient)
        }
    }
}

/// The height of the image whose width over its aspect ratio is
/// `quotient`.
pub fn image_height(quotient: Scalar) -> (r: i32)
    ensures
        r == image_height_spec(quotient),
{
    if quotient.is_nan() {
        return 0;
    }
    let negative: bool = quotient.to_bits() >= SIGN_BIT;
    let magnitude: u64 = quotient.abs().to_bits();
    let e: u64 = magnitude / BINADE;
    let f: u64 = magnitude % BINADE;
    proof {
        lemma2_to64();
        lemma2_to64_rest();
        lemma_integer_part(quotient);
    }
    if e < 1023 {
        proof {
            let exp = quotient.exponent();
            if exp < 1022 {
                lemma_pow2_strictly_increases(53, (1075 - exp) as nat);
            }
            lemma_basic_div(quotient.significand(), pow2((1075 - exp) as nat) as int);
        }
        return 0;
    }
    if e >= 1054 {
        proof {
            let sig = quotient.significand();
            if e >= 1075 {
                let scale = pow2((e - 1075) as nat) as int;
                lemma_pow2_pos((e - 1075) as nat);
                assert(sig * scale >= sig) by (nonlinear_arith)
                    requires
                        sig >= 0,
                        scale >= 1,
                ;
            } else {
                let d = pow2((1075 - e) as nat) as int;
                lemma_pow2_pos((1075 - e) as nat);
                if e > 1054 {
                    lemma_pow2_strictly_increases((1075 - e) as nat, 21);
                }
                lemma_div_is_ordered(0x10_0000_0000_0000, sig, d);
                lemma_div_is_ordered_by_denominator(0x10_0000_0000_0000, d, 0x20_0000);
            }
        }
        return if negative {
            i32::MIN
        } else {
            i32::MAX
        };
    }
    let shift: u64 = 1075 - e;
    let sig: u64 = BINADE + f;
    let whole: u64 = sig >> shift;
    proof {
        lemma_u64_shr_is_div(sig, shift);
        assert(whole < 0x8000_0000) by (bit_vector)
            requires
                whole == sig >> shift,
                sig < 0x20_0000_0000_0000,
                22 <= shift <= 52,
        ;
    }
    if negative {
        -(whole as i32)
    } else {
        whole as i32
    }
}

/// What tracing one ray through the scene found.
#[derive(Clone, Copy, Debug, PartialEq, Eq, Structural)]
pub enum Bounce {
    /// The ray met no object.
    Miss,
    /// The ray met a surface that absorbed it.
    Absorbed,
    /// The ray met a surface that sent it on.
    Scattered,
}

/// What the integrator does next.
#[derive(Clone, Copy, Debug, PartialEq, Eq, Structural)]
pub enum Step {
    /// Trace the ray; `depth` bounces are left, this one counted.
    Trace { depth: i32 },
    /// The path ends without light: its colour is black.
    Black,
    /// The path ends in the sky: its colour is the sky's along the last
    /// ray, attenuated by every surface on the way.
    Sky,
}

/// The first step for a ray with `depth` bounces left: with none left the
/// colour is black and nothing is traced.
pub open spec fn ray_color_spec(depth: i32) -> Step {
    if depth <= 0 {
        Step::Black
    } else {
        Step::Trace { depth }
    }
}

/// The step after a ray with `depth` bounces left was traced and `found`
/// came back: a miss ends in the sky, an absorbed ray in black, and a
/// scattered ray goes on with one bounce less.
pub open spec fn ray_color_after_spec(depth: i32, found: Bounce) -> Step {
    if depth <= 0 {
        Step::Black
    } else {
        match found {
            Bounce::Miss => Step::Sky,
            Bounce::Absorbed => Step::Black,
            Bounce::Scattered => ray_color_spec((depth - 1) as i32),
        }
    }
}

/// What the ray traced after `k` others finds.
pub open spec fn found_at(found: spec_fn(int) -> Bounce, k: int) -> Bounce {
    found(k)
}

/// A whole path: whether it ends in the sky, and how many rays were traced
/// when it ends, where `traced` were traced before and the next rays find
/// `found(traced)`, `found(traced + 1)` and so on.
pub open spec fn path_spec(depth: int, found: spec_fn(int) -> Bounce, traced: int) -> (bool, int)
    decreases depth,
{
    if depth <= 0 {
        (false, traced)
    } else {
        match found(traced) {
            Bounce::Miss => (true, traced + 1),
            Bounce::Absorbed => (false, traced + 1),
            Bounce::Scattered => path_spec(depth - 1, found, traced + 1),
        }
    }
}

/// What to do for a ray with `depth` bounces left, before anything is
/// traced.
pub fn ray_color(depth: i32) -> (r: Step)
    ensures
        r == ray_color_spec(depth),
        depth <= 0 ==> r == Step::Black,
{
    if depth <= 0 {
        return Step::Black;
    }
    Step::Trace { depth }
}

/// What to do after the ray with `depth` bounces left was traced and found
/// `found`.
pub fn ray_color_after(depth: i32, found: Bounce) -> (r: Step)
    ensures
        r == ray_color_after_spec(depth, found),
{
    if depth <= 0 {
        return Step::Black;
    }
    match found {
        Bounce::Miss => Step::Sky,
        Bounce::Absorbed => Step::Black,
        Bounce::Scattered => ray_color(depth - 1),
    }
}

/// Whether a camera ray starts on the defocus disk rather than at the
/// camera's centre: it does unless the defocus angle is zero or below.
pub fn samples_defocus_disk(defocus_angle: Scalar) -> (r: bool)
    ensures
        r == !defocus_angle.le_spec(Scalar::zero_spec()),
{
    !defocus_angle.le(Scalar::zero())
}

/// The height is cut toward zero: a quotient smaller in size than one
/// gives no height at all, and a quotient and its negation give heights of
/// the same size unless they lie beyond the range of the integers.
pub proof fn lemma_image_height_toward_zero(quotient: Scalar)
    ensures
        i32::MIN <= image_height_spec(quotient) <= i32::MAX,
        quotient.abs_spec().lt_spec(Scalar::one_spec()) ==> image_height_spec(quotient) == 0,
        integer_part(quotient) < 0x8000_0000 ==> image_height_spec(quotient.neg_spec())
            == -image_height_spec(quotient),
{
    let exp = quotient.exponent();
    lemma2_to64_rest();
    lemma_integer_part(quotient);
    if exp >= 1075 {
        lemma_pow2_pos((exp - 1075) as nat);
        assert(quotient.significand() * pow2((exp - 1075) as nat) >= 0) by (nonlinear_arith)
            requires
                quotient.significand() >= 0,
                pow2((exp - 1075) as nat) >= 1,
        ;
    } else {
        lemma_pow2_pos((1075 - exp) as nat);
        vstd::arithmetic::div_mod::lemma_div_pos_is_pos(
            quotient.significand(),
            pow2((1075 - exp) as nat) as int,
        );
    }
    if quotient.abs_spec().lt_spec(Scalar::one_spec()) {
        crate::scalar::lemma_rank_orders_values(quotient.abs_spec(), Scalar::one_spec());
        if exp < 1022 {
            lemma_pow2_strictly_increases(53, (1075 - exp) as nat);
        }
        lemma_basic_div(quotient.significand(), pow2((1075 - exp) as nat) as int);
    }
}

/// With no bounce left the colour is black, and no ray is traced to find
/// that out.
pub proof fn lemma_no_depth_is_black(depth: i32, found: spec_fn(int) -> Bounce)
    requires
        depth <= 0,
    ensures
        ray_color_spec(depth) == Step::Black,
        path_spec(depth as int, found, 0) == (false, 0int),
{
}

/// The steps walk the path: following `ray_color` and then
/// `ray_color_after` for each ray traced ends where `path_spec` says.
pub proof fn lemma_steps_follow_path(depth: i32, found: spec_fn(int) -> Bounce, traced: int)
    ensures
        path_spec(depth as int, found, traced) == match ray_color_spec(depth) {
            Step::Trace { depth: d } => match ray_color_after_spec(d, found(traced)) {
                Step::Trace { depth: next } => path_spec(next as int, found, traced + 1),
                Step::Sky => (true, traced + 1),
                Step::Black => (false, traced + 1),
            },
            Step::Sky => (true, traced),
            Step::Black => (false, traced),
        },
{
    if depth > 0 && found(traced) == Bounce::Scattered {
        assert(path_spec((depth - 1) as int, found, traced + 1) == if depth - 1 <= 0 {
            (false, traced + 1)
        } else {
            path_spec((depth - 1) as int, found, traced + 1)
        });
    }
}

/// Every path ends: whatever the rays find, no more than `depth` of them
/// are traced.
pub proof fn lemma_path_is_bounded(depth: int, found: spec_fn(int) -> Bounce, traced: int)
    ensures
        traced <= path_spec(depth, found, traced).1,
        path_spec(depth, found, traced).1 <= traced + if depth > 0 {
            depth
        } else {
            0
        },
    decreases depth,
{
    if depth > 0 && found(traced) == Bounce::Scattered {
        lemma_path_is_bounded(depth - 1, found, traced + 1);
    }
}

/// A path ends in the sky exactly when its last ray misses: every ray
/// before it was scattered.
pub proof fn lemma_sky_needs_a_miss(depth: int, found: spec_fn(int) -> Bounce, traced: int)
    ensures
        ({
            let (sky, end) = path_spec(depth, found, traced);
            &&& forall|k: int|
                traced <= k < end - 1 ==> #[trigger] found_at(found, k) == Bounce::Scattered
            &&& sky <==> end > traced && found_at(found, end - 1) == Bounce::Miss
        }),
    decreases depth,
{
    if depth > 0 && found(traced) == Bounce::Scattered {
        lemma_sky_needs_a_miss(depth - 1, found, traced + 1);
        lemma_path_is_bounded(depth - 1, found, traced + 1);
    }
}

/// A scene without objects shows the sky: with at least one bounce allowed,
/// the one ray traced for a sample hits nothing, and the path ends in the
/// sky after it.
pub proof fn lemma_empty_scene_shows_sky(depth: i32, ray_t: Interval, found: spec_fn(int) -> Bounce)
    requires
        depth > 0,
        nearest_spec(Seq::<Crossing>::empty(), ray_t) is None ==> found(0) == Bounce::Miss,
    ensures
        ray_color_spec(depth) == (Step::Trace { depth }),
        ray_color_after_spec(depth, found(0)) == Step::Sky,
        path_spec(depth as int, found, 0) == (true, 1int),
{
}

} // verus!
