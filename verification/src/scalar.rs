//! Binary64 numbers as bit patterns, and their order.

use vstd::prelude::*;
use vstd::arithmetic::div_mod::{lemma_div_multiples_vanish, lemma_div_multiples_vanish_quotient};
use vstd::arithmetic::power2::{
    lemma_pow2_adds, lemma_pow2_pos, lemma_pow2_strictly_increases, lemma_pow2_unfold, pow2,
};

verus! {

/// The sign bit of a binary64 pattern.
pub const SIGN_BIT: u64 = 0x8000_0000_0000_0000;

/// The pattern of positive infinity; every larger magnitude is a NaN.
pub const INFINITY_BITS: u64 = 0x7ff0_0000_0000_0000;

/// The pattern of `1.0`.
pub const ONE_BITS: u64 = 0x3ff0_0000_0000_0000;

/// Two to the power of 52: the number of patterns with one exponent.
pub const BINADE: u64 = 0x10_0000_0000_0000;

/// An IEEE-754 binary64 number, held as its 64 bits.
#[derive(Clone, Copy, Debug, PartialEq, Eq, Structural)]
pub struct Scalar {
    pub bits: u64,
}

impl Scalar {
    /// Whether the sign bit is set (true of `-0.0` too).
    pub open spec fn sign(self) -> bool {
        self.bits >= SIGN_BIT
    }

    /// The pattern without its sign bit.
    pub open spec fn magnitude(self) -> int {
        if self.bits >= SIGN_BIT {
            self.bits - SIGN_BIT
        } else {
            self.bits as int
        }
    }

    /// Whether the pattern is a NaN.
    pub open spec fn nan(self) -> bool {
        self.magnitude() > INFINITY_BITS
    }

    /// The pattern as a signed integer: the magnitude, negative where the
    /// sign bit is set. It grows with the value of the number.
    pub open spec fn rank(self) -> int {
        if self.sign() {
            -self.magnitude()
        } else {
            self.magnitude()
        }
    }

    /// The exponent field of the pattern.
    pub open spec fn exponent_field(self) -> int {
        self.magnitude() / (BINADE as int)
    }

    /// The exponent that the significand is scaled by, plus 1075: the
    /// exponent field, or one for a subnormal number.
    pub open spec fn exponent(self) -> int {
        if self.exponent_field() == 0 {
            1
        } else {
            self.exponent_field()
        }
    }

    /// The significand: the fraction field, with the hidden bit unless the
    /// number is subnormal. The size of a finite number is the significand
    /// times two to the power of `exponent() - 1075`.
    pub open spec fn significand(self) -> int {
        if self.exponent_field() == 0 {
            self.magnitude() % (BINADE as int)
        } else {
            BINADE + self.magnitude() % (BINADE as int)
        }
    }

    /// The size of the number, times two to the power of 1075: the
    /// significand times two to the power of the exponent. An infinity
    /// counts as the next number after the largest finite one.
    pub open spec fn size(self) -> int {
        self.significand() * pow2(self.exponent() as nat)
    }

    /// The value of the number, times two to the power of 1075: the size,
    /// below zero where the sign bit is set. Both zeros have the value
    /// zero.
    pub open spec fn value(self) -> int {
        if self.sign() {
            -self.size()
        } else {
            self.size()
        }
    }

    /// `self < other` as IEEE-754 compares: by value, and false when either
    /// is a NaN.
    pub open spec fn lt_spec(self, other: Scalar) -> bool {
        !self.nan() && !other.nan() && self.value() < other.value()
    }

    /// `self <= other` as IEEE-754 compares: by value, and false when
    /// either is a NaN.
    pub open spec fn le_spec(self, other: Scalar) -> bool {
        !self.nan() && !other.nan() && self.value() <= other.value()
    }

    /// The number with the sign bit flipped.
    pub open spec fn neg_spec(self) -> Scalar {
        if self.bits >= SIGN_BIT {
            Scalar { bits: (self.bits - SIGN_BIT) as u64 }
        } else {
            Scalar { bits: (self.bits + SIGN_BIT) as u64 }
        }
    }

    /// The number with the sign bit cleared.
    pub open spec fn abs_spec(self) -> Scalar {
        Scalar { bits: self.magnitude() as u64 }
    }

    /// The smaller of two numbers, a NaN giving way to the other number.
    /// Of two equal numbers it is `self`.
    pub open spec fn min_spec(self, other: Scalar) -> Scalar {
        if self.nan() {
            other
        } else if other.lt_spec(self) {
            other
        } else {
            self
        }
    }

    /// The number with the given pattern.
    pub fn from_bits(bits: u64) -> (r: Scalar)
        ensures
            r.bits == bits,
    {
        Scalar { bits }
    }

    /// The pattern of the number.
    pub fn to_bits(self) -> (r: u64)
        ensures
            r == self.bits,
    {
        self.bits
    }

    /// Positive zero.
    pub fn zero() -> (r: Scalar)
        ensures
            r == Scalar::zero_spec(),
    {
        Scalar { bits: 0 }
    }

    /// Positive zero.
    pub open spec fn zero_spec() -> Scalar {
        Scalar { bits: 0 }
    }

    /// The number `1.0`.
    pub fn one() -> (r: Scalar)
        ensures
            r == Scalar::one_spec(),
    {
        Scalar { bits: ONE_BITS }
    }

    /// The number `1.0`.
    pub open spec fn one_spec() -> Scalar {
        Scalar { bits: ONE_BITS }
    }

    /// Positive infinity.
    pub fn infinity() -> (r: Scalar)
        ensures
            r == Scalar::infinity_spec(),
    {
        Scalar { bits: INFINITY_BITS }
    }

    /// Positive infinity.
    pub open spec fn infinity_spec() -> Scalar {
        Scalar { bits: INFINITY_BITS }
    }

    /// Whether the number is a NaN.
    pub fn is_nan(self) -> (r: bool)
        ensures
            r == self.nan(),
    {
        let magnitude: u64 = if self.bits >= SIGN_BIT {
            self.bits - SIGN_BIT
        } else {
            self.bits
        };
        magnitude > INFINITY_BITS
    }

    /// The rank as a machine integer.
    fn key(self) -> (k: i64)
        ensures
            k == self.rank(),
    {
        if self.bits >= SIGN_BIT {
            let magnitude: u64 = self.bits - SIGN_BIT;
            -(magnitude as i64)
        } else {
            self.bits as i64
        }
    }

    /// `self < other`.
    pub fn lt(self, other: Scalar) -> (r: bool)
        ensures
            r == self.lt_spec(other),
    {
        proof {
            lemma_rank_orders_values(self, other);
        }
        !self.is_nan() && !other.is_nan() && self.key() < other.key()
    }

    /// `self <= other`.
    pub fn le(self, other: Scalar) -> (r: bool)
        ensures
            r == self.le_spec(other),
    {
        proof {
            lemma_rank_orders_values(self, other);
        }
        !self.is_nan() && !other.is_nan() && self.key() <= other.key()
    }

    /// `self > other`, which is `other < self`.
    pub fn gt(self, other: Scalar) -> (r: bool)
        ensures
            r == other.lt_spec(self),
    {
        other.lt(self)
    }

    /// `-self`.
    pub fn neg(self) -> (r: Scalar)
        ensures
            r == self.neg_spec(),
    {
        if self.bits >= SIGN_BIT {
            Scalar { bits: self.bits - SIGN_BIT }
        } else {
            Scalar { bits: self.bits + SIGN_BIT }
        }
    }

    /// The absolute value.
    pub fn abs(self) -> (r: Scalar)
        ensures
            r == self.abs_spec(),
    {
        if self.bits >= SIGN_BIT {
            Scalar { bits: self.bits - SIGN_BIT }
        } else {
            self
        }
    }

    /// The smaller of the two numbers; the other number where one is a NaN.
    pub fn min(self, other: Scalar) -> (r: Scalar)
        ensures
            r == self.min_spec(other),
    {
        if self.is_nan() {
            other
        } else if other.lt(self) {
            other
        } else {
            self
        }
    }
}

/// Within one sign a larger pattern is a larger size.
proof fn lemma_size_grows(a: Scalar, b: Scalar)
    requires
        a.magnitude() <= b.magnitude(),
    ensures
        0 <= a.size() <= b.size(),
        a.magnitude() < b.magnitude() ==> a.size() < b.size(),
{
    let pa = pow2(a.exponent() as nat) as int;
    let pb = pow2(b.exponent() as nat) as int;
    let sa = a.significand();
    let sb = b.significand();
    lemma_pow2_pos(a.exponent() as nat);
    lemma_pow2_pos(b.exponent() as nat);
    assert(a.exponent_field() <= b.exponent_field()) by {
        vstd::arithmetic::div_mod::lemma_div_is_ordered(
            a.magnitude(),
            b.magnitude(),
            BINADE as int,
        );
    }
    assert(0 <= sa * pa) by (nonlinear_arith)
        requires
            0 <= sa,
            0 < pa,
    ;
    if a.exponent() == b.exponent() {
        assert(sa * pa <= sb * pa && (sa < sb ==> sa * pa < sb * pa)) by (nonlinear_arith)
            requires
                sa <= sb,
                0 < pa,
        ;
    } else {
        lemma_pow2_unfold(b.exponent() as nat);
        if a.exponent() < b.exponent() - 1 {
            lemma_pow2_strictly_increases(a.exponent() as nat, (b.exponent() - 1) as nat);
        }
        let half = pow2((b.exponent() - 1) as nat) as int;
        assert(sa * pa < sb * pb) by (nonlinear_arith)
            requires
                0 <= sa < 0x20_0000_0000_0000,
                0x10_0000_0000_0000 <= sb,
                0 < pa <= half,
                pb == 2 * half,
        ;
    }
}

/// The integer part of a size times a power of two, from the significand:
/// the significand is shifted up where the exponent leaves no fraction,
/// and divided where it does.
pub proof fn lemma_size_cut(x: Scalar, k: nat)
    ensures
        (pow2(k) * x.size()) / (pow2(1075) as int) == if x.exponent() + k >= 1075 {
            x.significand() * pow2((x.exponent() + k - 1075) as nat)
        } else {
            x.significand() / (pow2((1075 - k - x.exponent()) as nat) as int)
        },
{
    let e = x.exponent() as nat;
    let sig = x.significand();
    let shifted = pow2(k + e) as int;
    let whole = pow2(1075) as int;
    lemma_pow2_adds(k, e);
    lemma_pow2_pos(k + e);
    lemma_pow2_pos(1075);
    assert(pow2(k) * x.size() == sig * shifted) by (nonlinear_arith)
        requires
            x.size() == sig * pow2(e),
            shifted == pow2(k) * pow2(e),
    ;
    if e + k >= 1075 {
        let up = pow2((e + k - 1075) as nat) as int;
        lemma_pow2_adds((e + k - 1075) as nat, 1075);
        assert(sig * shifted == whole * (sig * up)) by (nonlinear_arith)
            requires
                shifted == up * whole,
        ;
        lemma_div_multiples_vanish(sig * up, whole);
    } else {
        let down = pow2((1075 - k - e) as nat) as int;
        lemma_pow2_adds(k + e, (1075 - k - e) as nat);
        lemma_pow2_pos((1075 - k - e) as nat);
        lemma_div_multiples_vanish_quotient(shifted, sig, down);
        assert(sig * shifted == shifted * sig) by (nonlinear_arith);
    }
}

/// The order of the patterns is the order of the values: of two numbers the
/// one with the smaller rank has the smaller value, and numbers of one rank
/// have one value.
pub proof fn lemma_rank_orders_values(a: Scalar, b: Scalar)
    ensures
        a.rank() < b.rank() <==> a.value() < b.value(),
        a.rank() == b.rank() <==> a.value() == b.value(),
        a.magnitude() == 0 <==> a.value() == 0,
{
    let zero = Scalar { bits: 0 };
    assert(zero.size() == 0) by (nonlinear_arith)
        requires
            zero.size() == zero.significand() * pow2(zero.exponent() as nat),
            zero.significand() == 0,
    ;
    lemma_size_grows(zero, a);
    lemma_size_grows(zero, b);
    if a.magnitude() <= b.magnitude() {
        lemma_size_grows(a, b);
    } else {
        lemma_size_grows(b, a);
    }
}

/// No number is less than itself.
pub proof fn lemma_lt_irreflexive(a: Scalar)
    ensures
        !a.lt_spec(a),
{
}

/// Of two numbers at most one is less than the other.
pub proof fn lemma_lt_asymmetric(a: Scalar, b: Scalar)
    requires
        a.lt_spec(b),
    ensures
        !b.lt_spec(a),
        a.le_spec(b),
{
}

/// Less-than passes along a chain.
pub proof fn lemma_lt_transitive(a: Scalar, b: Scalar, c: Scalar)
    requires
        a.lt_spec(b),
        b.lt_spec(c),
    ensures
        a.lt_spec(c),
{
}

/// Two numbers that are not NaN are ordered one way, the other way, or
/// equal in value.
pub proof fn lemma_lt_total(a: Scalar, b: Scalar)
    requires
        !a.nan(),
        !b.nan(),
    ensures
        a.lt_spec(b) || b.lt_spec(a) || a.value() == b.value(),
        a.le_spec(b) <==> !b.lt_spec(a),
{
}

/// Negation mirrors the number line: applied twice it gives the number
/// back, it keeps a NaN a NaN, and it turns the order round.
pub proof fn lemma_neg_mirrors(a: Scalar, b: Scalar)
    ensures
        a.neg_spec().neg_spec() == a,
        a.neg_spec().nan() == a.nan(),
        a.neg_spec().value() == -a.value(),
        a.lt_spec(b) <==> b.neg_spec().lt_spec(a.neg_spec()),
{
    lemma_rank_orders_values(a, a);
    lemma_rank_orders_values(b, b);
}

/// The absolute value is never below zero, and is the number itself or its
/// negation.
pub proof fn lemma_abs_not_negative(a: Scalar)
    ensures
        !a.abs_spec().lt_spec(Scalar::zero_spec()),
        a.abs_spec() == a || a.abs_spec() == a.neg_spec(),
        a.abs_spec().nan() == a.nan(),
        a.abs_spec().value() == a.size(),
{
    lemma_rank_orders_values(a.abs_spec(), Scalar::zero_spec());
}

/// The minimum is one of the two numbers, and neither is below it; it is a
/// NaN only when both are.
pub proof fn lemma_min_is_lower_bound(a: Scalar, b: Scalar)
    ensures
        a.min_spec(b) == a || a.min_spec(b) == b,
        !a.lt_spec(a.min_spec(b)),
        !b.lt_spec(a.min_spec(b)),
        a.min_spec(b).nan() <==> a.nan() && b.nan(),
{
}

} // verus!
