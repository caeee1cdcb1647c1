//! IEEE 754 numbers held by their bit patterns.
//!
//! The engine compares, clamps and orders scores, thresholds and confidences far
//! more often than it computes with them. A comparison is a matter of the bit
//! pattern alone, so these types carry the pattern and decide every comparison on
//! integers, with the exact outcome of the IEEE 754 operation: a NaN is unordered,
//! and the two zeros are equal.

use vstd::prelude::*;
use vstd::arithmetic::power2::{lemma2_to64, lemma_pow2_unfold, pow2};

verus! {

/// Sign bit of a binary32 pattern.
pub const SIGN_32: u32 = 0x8000_0000;

/// Pattern of positive infinity in binary32; a greater magnitude is a NaN.
pub const INFINITY_32: u32 = 0x7f80_0000;

/// Pattern of `1.0` in binary32.
pub const ONE_32: u32 = 0x3f80_0000;

/// Pattern of the smallest normal number in binary32.
pub const SMALLEST_NORMAL_32: u32 = 0x0080_0000;

/// Sign bit of a binary64 pattern.
pub const SIGN_64: u64 = 0x8000_0000_0000_0000;

/// Pattern of positive infinity in binary64; a greater magnitude is a NaN.
pub const INFINITY_64: u64 = 0x7ff0_0000_0000_0000;

/// Pattern of `1.0` in binary64.
pub const ONE_64: u64 = 0x3ff0_0000_0000_0000;

/// A binary32 number, held by its bit pattern.
#[derive(Clone, Copy, Debug, PartialEq, Eq, Structural)]
pub struct Binary32 {
    pub bits: u32,
}

/// A binary64 number, held by its bit pattern.
#[derive(Clone, Copy, Debug, PartialEq, Eq, Structural)]
pub struct Binary64 {
    pub bits: u64,
}

/// A binary64 number with the decimal text that it is shown as. The text is rendered where
/// the number is at hand as a float.
#[derive(Clone, Debug)]
pub struct Shown64 {
    pub value: Binary64,
    pub text: String,
}

/// The binary64 pattern of the value whose binary32 pattern is `m`, both without sign.
///
/// A normal number keeps its fraction, which moves up by 29 bits, and its exponent, whose
/// bias grows by 896. A subnormal number is half of the number of twice its pattern, and
/// half of a normal number has the exponent one below.
pub open spec fn widened_magnitude(m: int) -> int
    decreases 2 * SMALLEST_NORMAL_32 - m,
{
    if m <= 0 {
        0
    } else if m >= INFINITY_32 {
        INFINITY_64 as int
    } else if m >= SMALLEST_NORMAL_32 {
        m * 0x2000_0000 + 896 * 0x10_0000_0000_0000
    } else {
        widened_magnitude(2 * m) - 0x10_0000_0000_0000
    }
}

/// A widened number is normal: its exponent is at least that of the leading bit.
proof fn widened_magnitude_is_large(m: int, leading: nat)
    requires
        leading <= 23,
        pow2(leading) <= m <= INFINITY_32,
    ensures
        (874 + leading) * 0x10_0000_0000_0000 <= widened_magnitude(m) <= INFINITY_64,
    decreases 23 - leading,
{
    lemma2_to64();
    if m < SMALLEST_NORMAL_32 {
        if leading == 23 {
            assert(pow2(23) == 0x80_0000);
        } else {
            lemma_pow2_unfold(leading + 1);
            widened_magnitude_is_large(2 * m, leading + 1);
        }
    } else {
        assert(INFINITY_64 == 2047 * 0x10_0000_0000_0000);
    }
}

proof fn widened_magnitude_fits(m: int)
    requires
        0 <= m <= INFINITY_32,
    ensures
        0 <= widened_magnitude(m) <= INFINITY_64,
        0 < m ==> widened_magnitude(m) >= 874 * 0x10_0000_0000_0000,
{
    if m > 0 {
        lemma2_to64();
        widened_magnitude_is_large(m, 0);
    }
}

/// Widens a pattern without sign.
fn widen_magnitude(m: u32) -> (r: u64)
    requires
        m <= INFINITY_32,
    ensures
        r == widened_magnitude(m as int),
    decreases 2 * SMALLEST_NORMAL_32 - m,
{
    if m == 0 {
        0
    } else if m == INFINITY_32 {
        INFINITY_64
    } else if m >= SMALLEST_NORMAL_32 {
        m as u64 * 0x2000_0000 + 896 * 0x10_0000_0000_0000
    } else {
        proof {
            widened_magnitude_fits(2 * m);
        }
        widen_magnitude(2 * m) - 0x10_0000_0000_0000
    }
}

impl Binary32 {
    /// The pattern without its sign bit.
    pub open spec fn magnitude(self) -> int {
        if self.bits >= SIGN_32 {
            self.bits - SIGN_32
        } else {
            self.bits as int
        }
    }

    /// Whether the pattern is a NaN.
    pub open spec fn nan(self) -> bool {
        self.magnitude() > INFINITY_32
    }

    /// Position of a number that is not a NaN on the real line: numbers compare
    /// as their ranks do, and both zeros have rank 0.
    pub open spec fn rank(self) -> int {
        if self.bits >= SIGN_32 {
            -self.magnitude()
        } else {
            self.magnitude()
        }
    }

    /// IEEE `self < other`.
    pub open spec fn lt(self, other: Binary32) -> bool {
        !self.nan() && !other.nan() && self.rank() < other.rank()
    }

    /// IEEE `self <= other`.
    pub open spec fn le(self, other: Binary32) -> bool {
        !self.nan() && !other.nan() && self.rank() <= other.rank()
    }

    /// Positive zero.
    pub open spec fn zero_value() -> Binary32 {
        Binary32 { bits: 0 }
    }

    /// The number one.
    pub open spec fn one_value() -> Binary32 {
        Binary32 { bits: ONE_32 }
    }

    /// The nearest number in `[0, 1]`; a NaN stays itself.
    pub open spec fn clamped(self) -> Binary32 {
        if self.lt(Binary32::zero_value()) {
            Binary32::zero_value()
        } else if Binary32::one_value().lt(self) {
            Binary32::one_value()
        } else {
            self
        }
    }

    /// The lesser of two numbers, ignoring a NaN.
    pub open spec fn lesser(self, other: Binary32) -> Binary32 {
        if self.nan() {
            other
        } else if other.nan() || self.rank() <= other.rank() {
            self
        } else {
            other
        }
    }

    /// The greater of two numbers, ignoring a NaN.
    pub open spec fn greater(self, other: Binary32) -> Binary32 {
        if self.nan() {
            other
        } else if other.nan() || self.rank() >= other.rank() {
            self
        } else {
            other
        }
    }

    /// The binary64 number of the same value. Every binary32 number but a NaN has one.
    pub open spec fn widened(self) -> Binary64 {
        if self.bits >= SIGN_32 {
            Binary64 { bits: (SIGN_64 + widened_magnitude(self.bits - SIGN_32)) as u64 }
        } else {
            Binary64 { bits: widened_magnitude(self.bits as int) as u64 }
        }
    }

    /// The number with the given bit pattern.
    pub fn from_bits(bits: u32) -> (r: Binary32)
        ensures
            r.bits == bits,
    {
        Binary32 { bits }
    }

    /// The bit pattern of the number.
    pub fn to_bits(self) -> (r: u32)
        ensures
            r == self.bits,
    {
        self.bits
    }

    /// Positive zero.
    pub fn zero() -> (r: Binary32)
        ensures
            r == Binary32::zero_value(),
    {
        Binary32 { bits: 0 }
    }

    /// The number one.
    pub fn one() -> (r: Binary32)
        ensures
            r == Binary32::one_value(),
    {
        Binary32 { bits: ONE_32 }
    }

    /// Whether the number is a NaN.
    pub fn is_nan(self) -> (r: bool)
        ensures
            r == self.nan(),
    {
        if self.bits >= SIGN_32 {
            self.bits - SIGN_32 > INFINITY_32
        } else {
            self.bits > INFINITY_32
        }
    }

    /// The rank as a machine integer.
    fn rank_i64(self) -> (r: i64)
        ensures
            r as int == self.rank(),
    {
        if self.bits >= SIGN_32 {
            -((self.bits - SIGN_32) as i64)
        } else {
            self.bits as i64
        }
    }

    /// IEEE `self < other`.
    pub fn less_than(self, other: Binary32) -> (r: bool)
        ensures
            r == self.lt(other),
    {
        !self.is_nan() && !other.is_nan() && self.rank_i64() < other.rank_i64()
    }

    /// IEEE `self <= other`.
    pub fn at_most(self, other: Binary32) -> (r: bool)
        ensures
            r == self.le(other),
    {
        !self.is_nan() && !other.is_nan() && self.rank_i64() <= other.rank_i64()
    }

    /// Clamps to `[0, 1]`; a NaN is returned as it is.
    pub fn clamp_unit(self) -> (r: Binary32)
        ensures
            r == self.clamped(),
    {
        if self.less_than(Binary32::zero()) {
            Binary32::zero()
        } else if Binary32::one().less_than(self) {
            Binary32::one()
        } else {
            self
        }
    }

    /// Widens to binary64, which loses nothing.
    pub fn widen(self) -> (r: Binary64)
        requires
            !self.nan(),
        ensures
            r == self.widened(),
    {
        proof {
            widened_magnitude_fits(
                if self.bits >= SIGN_32 {
                    self.bits - SIGN_32
                } else {
                    self.bits as int
                },
            );
        }
        if self.bits >= SIGN_32 {
            Binary64 { bits: SIGN_64 + widen_magnitude(self.bits - SIGN_32) }
        } else {
            Binary64 { bits: widen_magnitude(self.bits) }
        }
    }

    /// The lesser of two numbers, ignoring a NaN.
    pub fn min_of(self, other: Binary32) -> (r: Binary32)
        ensures
            r == self.lesser(other),
    {
        if self.is_nan() {
            other
        } else if other.is_nan() || self.rank_i64() <= other.rank_i64() {
            self
        } else {
            other
        }
    }

    /// The greater of two numbers, ignoring a NaN.
    pub fn max_of(self, other: Binary32) -> (r: Binary32)
        ensures
            r == self.greater(other),
    {
        if self.is_nan() {
            other
        } else if other.is_nan() || self.rank_i64() >= other.rank_i64() {
            self
        } else {
            other
        }
    }
}

impl Binary64 {
    /// The pattern without its sign bit.
    pub open spec fn magnitude(self) -> int {
        if self.bits >= SIGN_64 {
            self.bits - SIGN_64
        } else {
            self.bits as int
        }
    }

    /// Whether the pattern is a NaN.
    pub open spec fn nan(self) -> bool {
        self.magnitude() > INFINITY_64
    }

    /// Position of a number that is not a NaN on the real line.
    pub open spec fn rank(self) -> int {
        if self.bits >= SIGN_64 {
            -self.magnitude()
        } else {
            self.magnitude()
        }
    }

    /// IEEE `self < other`.
    pub open spec fn lt(self, other: Binary64) -> bool {
        !self.nan() && !other.nan() && self.rank() < other.rank()
    }

    /// IEEE `self <= other`.
    pub open spec fn le(self, other: Binary64) -> bool {
        !self.nan() && !other.nan() && self.rank() <= other.rank()
    }

    /// Positive zero.
    pub open spec fn zero_value() -> Binary64 {
        Binary64 { bits: 0 }
    }

    /// The number one.
    pub open spec fn one_value() -> Binary64 {
        Binary64 { bits: ONE_64 }
    }

    /// The number with the given bit pattern.
    pub fn from_bits(bits: u64) -> (r: Binary64)
        ensures
            r.bits == bits,
    {
        Binary64 { bits }
    }

    /// The bit pattern of the number.
    pub fn to_bits(self) -> (r: u64)
        ensures
            r == self.bits,
    {
        self.bits
    }

    /// Positive zero.
    pub fn zero() -> (r: Binary64)
        ensures
            r == Binary64::zero_value(),
    {
        Binary64 { bits: 0 }
    }

    /// The number one.
    pub fn one() -> (r: Binary64)
        ensures
            r == Binary64::one_value(),
    {
        Binary64 { bits: ONE_64 }
    }

    /// Whether the number is a NaN.
    pub fn is_nan(self) -> (r: bool)
        ensures
            r == self.nan(),
    {
        if self.bits >= SIGN_64 {
            self.bits - SIGN_64 > INFINITY_64
        } else {
            self.bits > INFINITY_64
        }
    }

    /// The rank as a machine integer.
    fn rank_i128(self) -> (r: i128)
        ensures
            r as int == self.rank(),
    {
        if self.bits >= SIGN_64 {
            -((self.bits - SIGN_64) as i128)
        } else {
            self.bits as i128
        }
    }

    /// IEEE `self < other`.
    pub fn less_than(self, other: Binary64) -> (r: bool)
        ensures
            r == self.lt(other),
    {
        !self.is_nan() && !other.is_nan() && self.rank_i128() < other.rank_i128()
    }

    /// IEEE `self <= other`.
    pub fn at_most(self, other: Binary64) -> (r: bool)
        ensures
            r == self.le(other),
    {
        !self.is_nan() && !other.is_nan() && self.rank_i128() <= other.rank_i128()
    }
}

/// Comparison of binary32 patterns: positive numbers compare as their patterns do, negative
/// ones the other way round, a negative number is below a positive one unless both are
/// zeros, and a NaN is neither below nor above anything, itself included.
pub proof fn law_order_of_patterns_32(a: Binary32, b: Binary32)
    ensures
        a.nan() <==> 0x7f80_0000 < a.bits < 0x8000_0000 || a.bits > 0xff80_0000,
        a.nan() || b.nan() ==> !a.lt(b) && !a.le(b),
        !a.nan() && !b.nan() ==> (a.le(b) <==> !b.lt(a)),
        !a.nan() && !b.nan() && a.bits < 0x8000_0000 && b.bits < 0x8000_0000 ==> (a.lt(b) <==> a.bits
            < b.bits),
        !a.nan() && !b.nan() && a.bits >= 0x8000_0000 && b.bits >= 0x8000_0000 ==> (a.lt(b)
            <==> a.bits > b.bits),
        !a.nan() && !b.nan() && a.bits >= 0x8000_0000 && b.bits < 0x8000_0000 ==> (a.lt(b) <==> !(
        a.bits == 0x8000_0000 && b.bits == 0)) && !b.lt(a),
{
}

/// Comparison of binary64 patterns, as of binary32 ones.
pub proof fn law_order_of_patterns_64(a: Binary64, b: Binary64)
    ensures
        a.nan() <==> 0x7ff0_0000_0000_0000 < a.bits < 0x8000_0000_0000_0000 || a.bits
            > 0xfff0_0000_0000_0000,
        a.nan() || b.nan() ==> !a.lt(b) && !a.le(b),
        !a.nan() && !b.nan() ==> (a.le(b) <==> !b.lt(a)),
        !a.nan() && !b.nan() && a.bits < 0x8000_0000_0000_0000 && b.bits < 0x8000_0000_0000_0000
            ==> (a.lt(b) <==> a.bits < b.bits),
        !a.nan() && !b.nan() && a.bits >= 0x8000_0000_0000_0000 && b.bits >= 0x8000_0000_0000_0000
            ==> (a.lt(b) <==> a.bits > b.bits),
        !a.nan() && !b.nan() && a.bits >= 0x8000_0000_0000_0000 && b.bits < 0x8000_0000_0000_0000
            ==> (a.lt(b) <==> !(a.bits == 0x8000_0000_0000_0000 && b.bits == 0)) && !b.lt(a),
{
}

/// Clamping leaves a number in `[0, 1]` and a NaN as they are; it takes what is below to
/// zero and what is above to one.
pub proof fn law_clamping_changes_only_what_is_outside(x: Binary32)
    ensures
        x.nan() ==> x.clamped() == x,
        !x.nan() ==> Binary32::zero_value().le(x.clamped()) && x.clamped().le(
            Binary32::one_value(),
        ),
        Binary32::zero_value().le(x) && x.le(Binary32::one_value()) ==> x.clamped() == x,
        x.lt(Binary32::zero_value()) ==> x.clamped() == (Binary32 { bits: 0 }),
        Binary32::one_value().lt(x) ==> x.clamped() == (Binary32 { bits: 0x3f80_0000 }),
{
}

/// The lesser and the greater of two numbers are these two, in order, and a NaN gives way to
/// the other one.
pub proof fn law_lesser_and_greater(a: Binary32, b: Binary32)
    ensures
        a.nan() ==> a.lesser(b) == b && a.greater(b) == b,
        !a.nan() && b.nan() ==> a.lesser(b) == a && a.greater(b) == a,
        !a.nan() && !b.nan() ==> a.lesser(b).le(a) && a.lesser(b).le(b) && a.le(a.greater(b))
            && b.le(a.greater(b)) && (a.lesser(b) == a || a.lesser(b) == b) && (a.greater(b) == a
            || a.greater(b) == b),
{
}

/// The value of a binary32 pattern without sign, counted in its smallest unit: the fraction
/// with its leading one, doubled once for every step of the exponent.
pub open spec fn units_32(m: int) -> int {
    if m < 0x80_0000 {
        m
    } else {
        (0x80_0000 + m % 0x80_0000) * pow2((m / 0x80_0000 - 1) as nat)
    }
}

/// The value of a normal binary64 pattern without sign, counted in its smallest unit.
pub open spec fn units_64(m: int) -> int {
    (0x10_0000_0000_0000 + m % 0x10_0000_0000_0000) * pow2((m / 0x10_0000_0000_0000 - 1) as nat)
}

proof fn halving_lowers_the_exponent(m: int)
    requires
        m >= 2 * 0x10_0000_0000_0000,
    ensures
        units_64(m) == 2 * units_64(m - 0x10_0000_0000_0000),
{
    let e = m / 0x10_0000_0000_0000;
    assert((m - 0x10_0000_0000_0000) / 0x10_0000_0000_0000 == e - 1);
    assert((m - 0x10_0000_0000_0000) % 0x10_0000_0000_0000 == m % 0x10_0000_0000_0000);
    lemma_pow2_unfold((e - 1) as nat);
    let f = 0x10_0000_0000_0000 + m % 0x10_0000_0000_0000;
    let p = pow2((e - 2) as nat) as int;
    assert(f * (2 * p) == 2 * (f * p)) by (nonlinear_arith);
}

/// Widening keeps the value: in the units of binary64, of which `2^925` make one of binary32,
/// a number is worth as much as before.
pub proof fn law_widening_keeps_the_value(m: int)
    requires
        0 < m < INFINITY_32,
    ensures
        units_64(widened_magnitude(m)) == units_32(m) * pow2(925),
    decreases 0x100_0000 - m,
{
    if m >= SMALLEST_NORMAL_32 {
        let w = m * 0x2000_0000 + 896 * 0x10_0000_0000_0000;
        let e = m / 0x80_0000;
        let f = m % 0x80_0000;
        assert(m == e * 0x80_0000 + f);
        assert(w == (e + 896) * 0x10_0000_0000_0000 + f * 0x2000_0000);
        assert(0 <= f * 0x2000_0000 < 0x10_0000_0000_0000);
        assert(w / 0x10_0000_0000_0000 == e + 896);
        assert(w % 0x10_0000_0000_0000 == f * 0x2000_0000);
        vstd::arithmetic::power2::lemma_pow2_adds((e - 1) as nat, 896);
        vstd::arithmetic::power2::lemma_pow2_adds(29, 896);
        lemma2_to64();
        assert(pow2(29) == 0x2000_0000);
        let a = 0x80_0000 + f;
        let p = pow2((e - 1) as nat) as int;
        let q = pow2(896) as int;
        assert((a * 0x2000_0000) * (p * q) == (a * p) * (0x2000_0000 * q)) by (nonlinear_arith);
    } else {
        law_widening_keeps_the_value(2 * m);
        widened_magnitude_fits(2 * m);
        halving_lowers_the_exponent(widened_magnitude(2 * m));
        let q = pow2(925) as int;
        if 2 * m >= 0x80_0000 {
            assert((2 * m) / 0x80_0000 == 1);
            assert((2 * m) % 0x80_0000 == 2 * m - 0x80_0000);
            lemma2_to64();
            assert(pow2(0) == 1);
            assert((0x80_0000 + (2 * m) % 0x80_0000) * 1 == 2 * m);
            assert(units_32(2 * m) == 2 * m);
        }
        assert((2 * m) * q == 2 * (m * q)) by (nonlinear_arith);
    }
}

/// Widening keeps the sign, takes zero to zero and infinity to infinity, and otherwise does to
/// the rest of the pattern what [`law_widening_keeps_the_value`] says.
pub proof fn law_widening_keeps_the_sign(x: Binary32)
    requires
        !x.nan(),
    ensures
        x.bits < 0x8000_0000 <==> x.widened().bits < 0x8000_0000_0000_0000,
        x.bits == 0 ==> x.widened().bits == 0,
        x.bits == 0x8000_0000 ==> x.widened().bits == 0x8000_0000_0000_0000,
        x.bits == 0x7f80_0000 ==> x.widened().bits == 0x7ff0_0000_0000_0000,
        x.bits == 0xff80_0000 ==> x.widened().bits == 0xfff0_0000_0000_0000,
        0 < x.bits < 0x7f80_0000 ==> x.widened().bits == widened_magnitude(x.bits as int),
        0x8000_0000 < x.bits < 0xff80_0000 ==> x.widened().bits == 0x8000_0000_0000_0000
            + widened_magnitude(x.bits - 0x8000_0000),
{
    if x.bits >= 0x8000_0000 {
        widened_magnitude_fits(x.bits - 0x8000_0000);
    } else {
        widened_magnitude_fits(x.bits as int);
    }
}

}
