//! From a linear colour to the bytes of a plain-text pixmap.

use vstd::prelude::*;
use vstd::arithmetic::div_mod::{lemma_basic_div, lemma_div_is_ordered};
use vstd::arithmetic::power2::{
    lemma2_to64, lemma2_to64_rest, lemma_pow2_pos, lemma_pow2_strictly_increases, pow2,
};
use vstd::bits::lemma_u64_shr_is_div;
use crate::interval::Interval;
use crate::material::Color;
use crate::scalar::{lemma_rank_orders_values, lemma_size_cut, Scalar, BINADE};

verus! {

/// The pattern of `0.999`, the brightest intensity that is written.
pub const INTENSITY_MAX_BITS: u64 = 0x3fef_f7ce_d916_872b;

/// The range to which a channel is clamped before it becomes a byte.
pub open spec fn intensity() -> Interval {
    Interval { min: Scalar::zero_spec(), max: Scalar { bits: INTENSITY_MAX_BITS } }
}

/// Gamma 2: a positive linear component becomes its square root, anything
/// else zero. `root` is the square root of `linear_component`.
pub open spec fn linear_to_gamma_spec(linear_component: Scalar, root: Scalar) -> Scalar {
    if Scalar::zero_spec().lt_spec(linear_component) {
        root
    } else {
        Scalar::zero_spec()
    }
}

/// The integer part of 256 times the size of a number.
pub open spec fn scaled_floor(c: Scalar) -> int {
    (256 * c.size()) / (pow2(1075) as int)
}

/// Below one, 256 times the size is the significand divided by two to the
/// power of 1067 less the exponent.
proof fn lemma_scaled_floor(c: Scalar)
    requires
        c.exponent() <= 1066,
    ensures
        scaled_floor(c) == c.significand() / (pow2((1067 - c.exponent()) as nat) as int),
{
    lemma2_to64();
    lemma_size_cut(c, 8);
}

/// The byte of a channel: the channel clamped to `[0, 0.999]`, times 256,
/// cut to an integer. A NaN gives zero.
pub open spec fn channel_spec(x: Scalar) -> int {
    let c = intensity().clamp_spec(x);
    if c.nan() {
        0
    } else {
        scaled_floor(c)
    }
}

/// The decimal digits of a number, as ASCII.
pub open spec fn digits(n: nat) -> Seq<u8>
    decreases n,
{
    if n < 10 {
        seq![(48 + n) as u8]
    } else {
        digits(n / 10).push((48 + n % 10) as u8)
    }
}

/// A number in decimal, with a minus sign where it is below zero.
pub open spec fn decimal(n: int) -> Seq<u8> {
    if n < 0 {
        seq![45u8] + digits((-n) as nat)
    } else {
        digits(n as nat)
    }
}

/// The pixmap's header: the two characters that mark a plain-text pixmap,
/// the width and the height, and the largest channel value, 255.
pub open spec fn ppm_header_spec(width: int, height: int) -> Seq<u8> {
    seq![80u8, 51u8, 10u8] + decimal(width) + seq![32u8] + decimal(height) + seq![
        10u8,
        50u8,
        53u8,
        53u8,
        10u8,
    ]
}

/// One pixel's line: three numbers with a space between, and a line feed.
pub open spec fn pixel_line_spec(r: int, g: int, b: int) -> Seq<u8> {
    decimal(r) + seq![32u8] + decimal(g) + seq![32u8] + decimal(b) + seq![10u8]
}

/// The line of a pixel with the linear colour `pixel_color`, where `roots`
/// holds the square root of each of its channels.
pub open spec fn write_color_spec(pixel_color: Color, roots: Color) -> Seq<u8> {
    pixel_line_spec(
        channel_spec(linear_to_gamma_spec(pixel_color.x, roots.x)),
        channel_spec(linear_to_gamma_spec(pixel_color.y, roots.y)),
        channel_spec(linear_to_gamma_spec(pixel_color.z, roots.z)),
    )
}

/// The gamma corrected component: `root`, the square root of
/// `linear_component`, where that is above zero, and zero where it is not.
pub fn linear_to_gamma(linear_component: Scalar, root: Scalar) -> (r: Scalar)
    ensures
        r == linear_to_gamma_spec(linear_component, root),
        !Scalar::zero_spec().lt_spec(linear_component) ==> r == Scalar::zero_spec(),
{
    if linear_component.gt(Scalar::zero()) {
        return root;
    }
    Scalar::zero()
}

/// The byte that is written for a gamma corrected channel.
pub fn channel(x: Scalar) -> (r: u8)
    ensures
        r == channel_spec(x),
{
    let range = Interval::new(Scalar::zero(), Scalar::from_bits(INTENSITY_MAX_BITS));
    let c = range.clamp(x);
    if c.is_nan() {
        return 0;
    }
    let magnitude: u64 = c.abs().to_bits();
    let e: u64 = magnitude / BINADE;
    let f: u64 = magnitude % BINADE;
    proof {
        lemma_clamped_intensity(x);
        lemma_scaled_floor(c);
    }
    if e < 1015 {
        proof {
            let exp = c.exponent();
            lemma2_to64_rest();
            if exp < 1014 {
                lemma_pow2_strictly_increases(53, (1067 - exp) as nat);
            }
            lemma_basic_div(c.significand(), pow2((1067 - exp) as nat) as int);
        }
        return 0;
    }
    let shift: u64 = 1067 - e;
    let sig: u64 = BINADE + f;
    let q: u64 = sig >> shift;
    proof {
        lemma_u64_shr_is_div(sig, shift);
        assert(q < 256) by (bit_vector)
            requires
                q == sig >> shift,
                sig < 0x20_0000_0000_0000,
                45 <= shift <= 52,
        ;
    }
    q as u8
}

/// Appends the digits of `n`.
fn push_digits(out: &mut Vec<u8>, n: u32)
    ensures
        final(out)@ == old(out)@ + digits(n as nat),
    decreases n,
{
    if n >= 10 {
        push_digits(out, n / 10);
    }
    out.push(48 + (n % 10) as u8);
}

/// Appends `n` in decimal.
pub fn push_decimal(out: &mut Vec<u8>, n: i32)
    ensures
        final(out)@ == old(out)@ + decimal(n as int),
{
    if n < 0 {
        out.push(45);
        let size: u32 = if n == i32::MIN {
            0x8000_0000
        } else {
            (-n) as u32
        };
        push_digits(out, size);
    } else {
        push_digits(out, n as u32);
    }
}

/// The header of a pixmap of the given size.
pub fn ppm_header(width: i32, height: i32) -> (out: Vec<u8>)
    ensures
        out@ == ppm_header_spec(width as int, height as int),
{
    let mut out: Vec<u8> = Vec::new();
    out.push(80);
    out.push(51);
    out.push(10);
    push_decimal(&mut out, width);
    out.push(32);
    push_decimal(&mut out, height);
    out.push(10);
    out.push(50);
    out.push(53);
    out.push(53);
    out.push(10);
    out
}

/// The line of one pixel. `pixel_color` is the linear colour, averaged over
/// the pixel's samples, and `roots` the square root of each of its
/// channels: each channel is gamma corrected, clamped, scaled and cut to a
/// byte, and the three bytes are written in decimal.
pub fn write_color(pixel_color: Color, roots: Color) -> (line: Vec<u8>)
    ensures
        line@ == write_color_spec(pixel_color, roots),
{
    let r: u8 = channel(linear_to_gamma(pixel_color.x, roots.x));
    let g: u8 = channel(linear_to_gamma(pixel_color.y, roots.y));
    let b: u8 = channel(linear_to_gamma(pixel_color.z, roots.z));
    let mut line: Vec<u8> = Vec::new();
    push_decimal(&mut line, r as i32);
    line.push(32);
    push_decimal(&mut line, g as i32);
    line.push(32);
    push_decimal(&mut line, b as i32);
    line.push(10);
    line
}

/// A channel clamped to the intensities is a NaN or a number from zero to
/// `0.999`: it is zero for a channel that is not above zero, and `0.999`
/// for one that is not below that.
proof fn lemma_clamped_intensity(x: Scalar)
    ensures
        ({
            let c = intensity().clamp_spec(x);
            &&& c.nan() == x.nan()
            &&& !c.nan() ==> c.magnitude() <= INTENSITY_MAX_BITS && c.size() == c.value()
            &&& !x.nan() && !Scalar::zero_spec().lt_spec(x) ==> c.magnitude() == 0
            &&& !x.nan() && !x.lt_spec(intensity().max) ==> c == intensity().max
        }),
{
    let c = intensity().clamp_spec(x);
    lemma_rank_orders_values(x, Scalar::zero_spec());
    lemma_rank_orders_values(x, intensity().max);
    lemma_rank_orders_values(Scalar::zero_spec(), intensity().max);
    lemma_rank_orders_values(c, c);
}

/// What is not above zero is dark after gamma correction: zero, a negative
/// number and a NaN all become positive zero, whatever `root` holds.
pub proof fn lemma_gamma_of_nonpositive(linear_component: Scalar, root: Scalar)
    requires
        !Scalar::zero_spec().lt_spec(linear_component),
    ensures
        linear_to_gamma_spec(linear_component, root) == Scalar::zero_spec(),
{
}

/// One stays one: the square root of `1.0` is `1.0`.
pub proof fn lemma_gamma_of_one()
    ensures
        linear_to_gamma_spec(Scalar::one_spec(), Scalar::one_spec()) == Scalar::one_spec(),
{
    lemma_rank_orders_values(Scalar::zero_spec(), Scalar::one_spec());
}

/// The brightest intensity is written as 255.
proof fn lemma_brightest_byte()
    ensures
        scaled_floor(intensity().max) == 255,
{
    let top = intensity().max;
    lemma2_to64_rest();
    lemma_scaled_floor(top);
    assert(0x1f_f7ce_d916_872bint / 0x2000_0000_0000int == 255);
}

/// Every channel becomes a byte: zero for anything not above zero and for
/// a NaN, 255 for anything from `0.999` on.
pub proof fn lemma_channel_is_byte(x: Scalar)
    ensures
        0 <= channel_spec(x) <= 255,
        x.nan() || !Scalar::zero_spec().lt_spec(x) ==> channel_spec(x) == 0,
        !x.nan() && !x.lt_spec(intensity().max) ==> channel_spec(x) == 255,
{
    let c = intensity().clamp_spec(x);
    lemma_clamped_intensity(x);
    lemma_channel_ends();
    if !x.nan() {
        lemma_clamped_intensity(c);
        lemma_rank_orders_values(c, Scalar::zero_spec());
        lemma_rank_orders_values(c, intensity().max);
        lemma_rank_orders_values(Scalar::zero_spec(), intensity().max);
        lemma_channel_grows(Scalar::zero_spec(), c);
        lemma_channel_grows(c, intensity().max);
        if c.magnitude() == 0 {
            lemma_channel_grows(c, Scalar::zero_spec());
        }
    }
}

/// Zero is written as 0 and `0.999` as 255.
proof fn lemma_channel_ends()
    ensures
        channel_spec(Scalar::zero_spec()) == 0,
        channel_spec(intensity().max) == 255,
{
    let zero = Scalar::zero_spec();
    lemma_clamped_intensity(zero);
    lemma_clamped_intensity(intensity().max);
    lemma_rank_orders_values(zero, intensity().max);
    lemma_rank_orders_values(zero, zero);
    lemma_pow2_pos(1075);
    lemma_brightest_byte();
}

/// A brighter channel is never written as a darker byte.
pub proof fn lemma_channel_grows(x: Scalar, y: Scalar)
    requires
        x.le_spec(y),
    ensures
        channel_spec(x) <= channel_spec(y),
{
    let a = intensity().clamp_spec(x);
    let b = intensity().clamp_spec(y);
    lemma_clamped_intensity(x);
    lemma_clamped_intensity(y);
    lemma_rank_orders_values(Scalar::zero_spec(), intensity().max);
    lemma_pow2_pos(1075);
    lemma_div_is_ordered(256 * a.size(), 256 * b.size(), pow2(1075) as int);
}

} // verus!
