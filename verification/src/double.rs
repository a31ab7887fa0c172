//! Double-precision numbers as IEEE 754 binary64 bit patterns.
//!
//! The model of a number is [`Double::units`]: its value counted in units of 2^-1074, the
//! smallest positive double. Every finite double is a whole number of such units, so order
//! and equality of numbers are order and equality of integers.

use vstd::arithmetic::mul::lemma_mul_is_associative;
use vstd::arithmetic::power2::{
    lemma2_to64, lemma2_to64_rest, lemma_pow2_adds, lemma_pow2_pos,
    lemma_pow2_strictly_increases, lemma_pow2_unfold, pow2,
};
use vstd::prelude::*;

verus! {

/// The bit that carries the sign.
pub const SIGN_BIT: u64 = 0x8000_0000_0000_0000;

/// Two to the power 52: how many fraction patterns one exponent has.
pub const FRACTION_SPAN: u64 = 0x0010_0000_0000_0000;

/// The magnitude bits of an infinity. Every larger magnitude is a NaN.
pub const INFINITY_BITS: u64 = 0x7ff0_0000_0000_0000;

/// The bit pattern of one half.
pub const HALF_BITS: u64 = 0x3fe0_0000_0000_0000;

/// The bit pattern of one.
pub const ONE_BITS: u64 = 0x3ff0_0000_0000_0000;

/// A double-precision number, held as its bit pattern.
#[derive(Clone, Copy, Debug)]
pub struct Double {
    pub bits: u64,
}

/// How many units of 2^-1074 make one.
pub open spec fn units_per_one() -> int {
    pow2(1074) as int
}

impl Double {
    /// Whether the sign bit is set.
    pub open spec fn is_negative(self) -> bool {
        self.bits >= SIGN_BIT
    }

    /// The bit pattern without its sign bit.
    pub open spec fn magnitude(self) -> nat {
        if self.bits >= SIGN_BIT {
            (self.bits - SIGN_BIT) as nat
        } else {
            self.bits as nat
        }
    }

    /// The eleven exponent bits.
    pub open spec fn exponent_field(self) -> nat {
        self.magnitude() / (FRACTION_SPAN as nat)
    }

    /// The fifty-two fraction bits.
    pub open spec fn fraction_field(self) -> nat {
        self.magnitude() % (FRACTION_SPAN as nat)
    }

    /// Whether the pattern is a NaN: no number at all.
    pub open spec fn spec_is_nan(self) -> bool {
        self.magnitude() > INFINITY_BITS
    }

    /// Whether the pattern is one of the two infinities.
    pub open spec fn spec_is_infinite(self) -> bool {
        self.magnitude() == INFINITY_BITS
    }

    /// Whether the pattern is a finite number: neither an infinity nor a NaN.
    pub open spec fn spec_is_finite(self) -> bool {
        self.magnitude() < INFINITY_BITS
    }

    /// The significand as a whole number: the fraction bits, with the implicit leading bit
    /// for every exponent but the lowest.
    pub open spec fn significand(self) -> nat {
        if self.exponent_field() == 0 {
            self.fraction_field()
        } else {
            FRACTION_SPAN as nat + self.fraction_field()
        }
    }

    /// The power of two by which the significand is multiplied to give the units.
    pub open spec fn scale(self) -> nat {
        if self.exponent_field() == 0 {
            0
        } else {
            (self.exponent_field() - 1) as nat
        }
    }

    /// The absolute value in units of 2^-1074.
    pub open spec fn magnitude_units(self) -> nat {
        self.significand() * pow2(self.scale())
    }

    /// The value in units of 2^-1074. It is exact for every finite number, and both zeros
    /// have no units. An infinity stands one exponent past the largest finite number, at
    /// 2^2098 units on its side, so that comparing units orders all numbers. The units of
    /// a NaN mean nothing.
    pub open spec fn units(self) -> int {
        if self.is_negative() {
            -(self.magnitude_units() as int)
        } else {
            self.magnitude_units() as int
        }
    }

    /// The bit pattern read as a signed magnitude: the integer by which numbers are
    /// compared.
    pub open spec fn order_key(self) -> int {
        if self.is_negative() {
            -(self.magnitude() as int)
        } else {
            self.magnitude() as int
        }
    }

    /// `self < other` as numbers. A NaN is below nothing and nothing is below it.
    pub open spec fn spec_lt(self, other: Double) -> bool {
        !self.spec_is_nan() && !other.spec_is_nan() && self.units() < other.units()
    }

    /// `self <= other` as numbers. A NaN is comparable with nothing.
    pub open spec fn spec_le(self, other: Double) -> bool {
        !self.spec_is_nan() && !other.spec_is_nan() && self.units() <= other.units()
    }

    /// `self == other` as numbers: the two zeros are the same number, a NaN equals nothing.
    pub open spec fn spec_same_number(self, other: Double) -> bool {
        !self.spec_is_nan() && !other.spec_is_nan() && self.units() == other.units()
    }

    /// `self` moved into `[lo, hi]`: the nearer bound where it lies outside, else itself.
    pub open spec fn spec_clamp(self, lo: Double, hi: Double) -> Double {
        if self.spec_lt(lo) {
            lo
        } else if hi.spec_lt(self) {
            hi
        } else {
            self
        }
    }

    /// The number with the given bit pattern.
    pub fn from_bits(bits: u64) -> (d: Double)
        ensures
            d.bits == bits,
    {
        Double { bits }
    }

    /// The bit pattern of the number.
    pub fn to_bits(self) -> (bits: u64)
        ensures
            bits == self.bits,
    {
        self.bits
    }

    pub(crate) fn magnitude_bits(self) -> (m: u64)
        ensures
            m == self.magnitude(),
            m < SIGN_BIT,
    {
        if self.bits >= SIGN_BIT {
            self.bits - SIGN_BIT
        } else {
            self.bits
        }
    }

    /// Whether the pattern is a NaN.
    #[verifier::when_used_as_spec(spec_is_nan)]
    pub fn is_nan(self) -> (r: bool)
        ensures
            r == self.spec_is_nan(),
    {
        self.magnitude_bits() > INFINITY_BITS
    }

    /// Whether the pattern is a finite number.
    #[verifier::when_used_as_spec(spec_is_finite)]
    pub fn is_finite(self) -> (r: bool)
        ensures
            r == self.spec_is_finite(),
    {
        self.magnitude_bits() < INFINITY_BITS
    }

    fn key(self) -> (k: i64)
        ensures
            k == self.order_key(),
    {
        let m: u64 = self.magnitude_bits();
        if self.bits >= SIGN_BIT {
            0i64 - (m as i64)
        } else {
            m as i64
        }
    }

    /// `self < other` as numbers; false where either is a NaN.
    #[verifier::when_used_as_spec(spec_lt)]
    pub fn lt(self, other: Double) -> (r: bool)
        ensures
            r == self.spec_lt(other),
    {
        proof {
            lemma_key_orders_units(self, other);
        }
        !self.is_nan() && !other.is_nan() && self.key() < other.key()
    }

    /// `self <= other` as numbers; false where either is a NaN.
    #[verifier::when_used_as_spec(spec_le)]
    pub fn le(self, other: Double) -> (r: bool)
        ensures
            r == self.spec_le(other),
    {
        proof {
            lemma_key_orders_units(self, other);
        }
        !self.is_nan() && !other.is_nan() && self.key() <= other.key()
    }

    /// `self == other` as numbers; false where either is a NaN.
    #[verifier::when_used_as_spec(spec_same_number)]
    pub fn same_number(self, other: Double) -> (r: bool)
        ensures
            r == self.spec_same_number(other),
    {
        proof {
            lemma_key_orders_units(self, other);
        }
        !self.is_nan() && !other.is_nan() && self.key() == other.key()
    }

    /// `self` moved into `[lo, hi]`. Where the bounds are in order and `self` is a number,
    /// the result lies within them. A NaN comes back as it is.
    #[verifier::when_used_as_spec(spec_clamp)]
    pub fn clamp(self, lo: Double, hi: Double) -> (r: Double)
        ensures
            r == self.spec_clamp(lo, hi),
            !self.spec_is_nan() && lo.spec_le(hi) ==> lo.spec_le(r) && r.spec_le(hi),
    {
        if self.lt(lo) {
            lo
        } else if hi.lt(self) {
            hi
        } else {
            self
        }
    }

    /// The positive number of `significand * 2^scale` units, for a significand that has
    /// room to be doubled until its leading bit stands in the implicit place.
    pub(crate) fn from_scaled(significand: u64, scale: u64) -> (d: Double)
        requires
            0 < significand < 2 * FRACTION_SPAN,
            52 <= scale <= 2045,
        ensures
            d.units() == significand * pow2(scale as nat),
            !d.is_negative(),
            d.spec_is_finite(),
    {
        let mut m: u64 = significand;
        let mut s: u64 = scale;
        proof {
            lemma2_to64();
            assert(significand * 1 == significand);
        }
        while m < FRACTION_SPAN
            invariant
                0 < significand < 2 * FRACTION_SPAN,
                52 <= scale <= 2045,
                s <= scale,
                m == significand * pow2((scale - s) as nat),
                0 < m < 2 * FRACTION_SPAN,
            decreases s,
        {
            proof {
                let doubled = (scale - s) as nat;
                lemma_pow2_pos(doubled);
                lemma2_to64_rest();
                assert(pow2(doubled) <= m) by (nonlinear_arith)
                    requires
                        m == significand * pow2(doubled),
                        significand >= 1,
                        pow2(doubled) > 0,
                ;
                if doubled > 52 {
                    lemma_pow2_strictly_increases(52, doubled);
                }
                assert(doubled < 52);
                lemma_pow2_unfold(doubled + 1);
                assert(2 * (significand * pow2(doubled)) == significand * (2 * pow2(doubled)))
                    by (nonlinear_arith);
            }
            m = m * 2;
            s = s - 1;
        }
        let d = Double::from_bits((s + 1) * FRACTION_SPAN + (m - FRACTION_SPAN));
        proof {
            let doubled = (scale - s) as nat;
            assert(d.magnitude() == (s + 1) * FRACTION_SPAN + (m - FRACTION_SPAN));
            assert(d.exponent_field() == s + 1);
            assert(d.fraction_field() == m - FRACTION_SPAN);
            assert(d.significand() == m);
            assert(d.scale() == s);
            lemma_pow2_adds(doubled, s as nat);
            lemma_mul_is_associative(
                significand as int,
                pow2(doubled) as int,
                pow2(s as nat) as int,
            );
            assert(d.units() == significand * pow2(scale as nat));
        }
        d
    }
}

/// A larger magnitude pattern is a larger absolute value.
pub proof fn lemma_magnitude_units_increase(a: Double, b: Double)
    requires
        a.magnitude() < b.magnitude(),
    ensures
        a.magnitude_units() < b.magnitude_units(),
{
    let span = FRACTION_SPAN as int;
    let sa = a.significand() as int;
    let sb = b.significand() as int;
    let pa = pow2(a.scale()) as int;
    let pb = pow2(b.scale()) as int;
    lemma_pow2_pos(a.scale());
    lemma_pow2_pos(b.scale());
    if a.exponent_field() == b.exponent_field() {
        // The same exponent: the fraction decides.
        assert(sa < sb);
        assert(sa * pa < sb * pa) by (nonlinear_arith)
            requires
                sa < sb,
                pa > 0,
        ;
    } else {
        // A lower exponent: b has the implicit bit, on a power of two that makes up for
        // all that a's fraction can hold.
        assert(a.exponent_field() < b.exponent_field());
        assert(span <= sb);
        if a.exponent_field() == 0 {
            lemma2_to64();
            assert(sa * pa < sb * pb) by (nonlinear_arith)
                requires
                    pa == 1,
                    0 <= sa < span,
                    span <= sb,
                    pb >= 1,
            ;
        } else {
            lemma_pow2_unfold(a.scale() + 1);
            if a.scale() + 1 < b.scale() {
                lemma_pow2_strictly_increases(a.scale() + 1, b.scale());
            }
            assert(2 * pa <= pb);
            assert(sa * pa < span * (2 * pa)) by (nonlinear_arith)
                requires
                    0 <= sa < 2 * span,
                    0 < pa,
            ;
            assert(span * (2 * pa) <= sb * pb) by (nonlinear_arith)
                requires
                    0 < span <= sb,
                    0 < 2 * pa <= pb,
            ;
        }
    }
}

/// The pattern of all zero bits is the number zero.
pub proof fn lemma_zero()
    ensures
        (Double { bits: 0 }).units() == 0,
        (Double { bits: 0 }).spec_is_finite(),
{
    let zero = Double { bits: 0 };
    assert(zero.magnitude() == 0);
    assert(zero.significand() == 0);
    assert(0 * pow2(zero.scale()) == 0);
}

/// Numbers compare as their bit patterns do when read as signed magnitudes.
pub proof fn lemma_key_orders_units(a: Double, b: Double)
    ensures
        a.order_key() < b.order_key() <==> a.units() < b.units(),
        a.order_key() == b.order_key() <==> a.units() == b.units(),
{
    let zero = Double { bits: 0 };
    lemma_zero();
    if a.magnitude() > 0 {
        lemma_magnitude_units_increase(zero, a);
    }
    if b.magnitude() > 0 {
        lemma_magnitude_units_increase(zero, b);
    }
    if a.magnitude() < b.magnitude() {
        lemma_magnitude_units_increase(a, b);
    }
    if b.magnitude() < a.magnitude() {
        lemma_magnitude_units_increase(b, a);
    }
}

/// The sign and the units of a pattern determine its bits.
pub proof fn lemma_units_determine_bits(a: Double, b: Double)
    requires
        a.is_negative() == b.is_negative(),
        a.units() == b.units(),
    ensures
        a.bits == b.bits,
{
    if a.magnitude() < b.magnitude() {
        lemma_magnitude_units_increase(a, b);
    }
    if b.magnitude() < a.magnitude() {
        lemma_magnitude_units_increase(b, a);
    }
}

/// A number that lies between two finite numbers is finite.
pub proof fn lemma_between_finite(lo: Double, x: Double, hi: Double)
    requires
        lo.spec_is_finite(),
        hi.spec_is_finite(),
        lo.spec_le(x),
        x.spec_le(hi),
    ensures
        x.spec_is_finite(),
{
    if x.spec_is_infinite() {
        lemma_magnitude_units_increase(lo, x);
        lemma_magnitude_units_increase(hi, x);
    }
}

/// One half is 2^1073 units and one is 2^1074 units.
pub proof fn lemma_half_and_one()
    ensures
        (Double { bits: HALF_BITS }).units() == pow2(1073),
        (Double { bits: ONE_BITS }).units() == units_per_one(),
        units_per_one() == 2 * pow2(1073),
        (Double { bits: HALF_BITS }).spec_is_finite(),
        (Double { bits: ONE_BITS }).spec_is_finite(),
{
    lemma2_to64_rest();
    let half = Double { bits: HALF_BITS };
    let one = Double { bits: ONE_BITS };
    assert(half.exponent_field() == 1022);
    assert(half.fraction_field() == 0);
    assert(one.exponent_field() == 1023);
    assert(one.fraction_field() == 0);
    lemma_pow2_adds(52, 1021);
    lemma_pow2_adds(52, 1022);
    lemma_pow2_unfold(1074);
}

} // verus!
