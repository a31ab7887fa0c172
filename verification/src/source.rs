//! The random source, the uniform draw from `[0, 1)` that drives both operators, and the
//! base of the power that each formula takes.
//!
//! A draw is made of one 64-bit word of the random source: the word's top 52 bits, read as
//! a binary fraction. These are the numbers `k / 2^52` for `k` from 0 up to `2^52 - 1`.

use crate::double::{
    lemma_half_and_one, lemma_key_orders_units, lemma_zero, units_per_one, Double,
    FRACTION_SPAN, HALF_BITS, ONE_BITS,
};
use rand::rngs::StdRng;
use rand::RngCore;
use vstd::arithmetic::div_mod::lemma_mod_multiples_basic;
use vstd::arithmetic::mul::{lemma_mul_nonnegative, lemma_mul_strict_inequality};
use vstd::arithmetic::power2::{
    lemma2_to64, lemma2_to64_rest, lemma_pow2_adds, lemma_pow2_pos, lemma_pow2_unfold, pow2,
};
use vstd::prelude::*;

verus! {

/// The random source: rand's standard generator, seeded by the caller. Verified code only
/// hands it on.
#[verifier::external_type_specification]
#[verifier::external_body]
pub struct ExStdRng(rand::rngs::StdRng);

/// Two to the power 12: the low bits of a word that a draw leaves out.
pub const DISCARDED_SPAN: u64 = 4096;

/// Whether `u` is a number in `[0, 1)`.
pub open spec fn spec_is_unit_draw(u: Double) -> bool {
    !u.spec_is_nan() && 0 <= u.units() < units_per_one()
}

/// The top 52 bits of a word, as a number.
pub open spec fn spec_steps(word: u64) -> nat {
    (word / DISCARDED_SPAN) as nat
}

/// The units of the number whose power a formula takes: of `2u` for a draw `u` in the lower
/// half of the unit interval, of `2(1 - u)` for one in the upper half.
pub open spec fn spec_base_units(u: Double, lower: bool) -> int {
    if lower {
        2 * u.units()
    } else {
        2 * (units_per_one() - u.units())
    }
}

/// Whether `base` is the number whose power the formula takes, of positive sign.
pub open spec fn is_power_base(base: Double, u: Double, lower: bool) -> bool {
    &&& base.spec_is_finite()
    &&& !base.is_negative()
    &&& base.units() == spec_base_units(u, lower)
}

/// Whether `u` is a number in `[0, 1)`.
#[verifier::when_used_as_spec(spec_is_unit_draw)]
pub fn is_unit_draw(u: Double) -> (r: bool)
    ensures
        r == spec_is_unit_draw(u),
{
    proof {
        lemma_zero();
        lemma_half_and_one();
    }
    Double::from_bits(0).le(u) && u.lt(Double::from_bits(ONE_BITS))
}

/// `RngCore::next_u64` on rand's `StdRng`: the next 64 bits of the generator's stream. The
/// call advances the generator. The bits depend on its state, which verified code cannot
/// see, so nothing is claimed of them.
#[verifier::external_body]
fn next_word(rng: &mut StdRng) -> (word: u64)
{
    rng.next_u64()
}

/// The draw that a word stands for: `k / 2^52`, where `k` is the word's top 52 bits. One
/// is 2^1074 units, so the draw is `k * 2^1022` units.
pub fn draw_of_word(word: u64) -> (u: Double)
    ensures
        u.units() == spec_steps(word) * pow2(1022),
        !u.is_negative(),
        spec_is_unit_draw(u),
{
    let steps: u64 = word / DISCARDED_SPAN;
    proof {
        let step = pow2(1022) as int;
        lemma2_to64_rest();
        lemma_pow2_adds(52, 1022);
        lemma_pow2_pos(1022);
        assert(units_per_one() == pow2(52) * step);
        lemma_mul_nonnegative(steps as int, step);
        lemma_mul_strict_inequality(steps as int, pow2(52) as int, step);
        assert(0 <= steps * step < units_per_one());
    }
    if steps == 0 {
        proof {
            lemma_zero();
            assert(0 * pow2(1022) == 0);
        }
        Double::from_bits(0)
    } else {
        Double::from_scaled(steps, 1022)
    }
}

/// `2u` for a draw of at most one half. Doubling is exact: it needs no rounding.
pub(crate) fn lower_base(u: Double) -> (base: Double)
    requires
        spec_is_unit_draw(u),
        2 * u.units() <= units_per_one(),
    ensures
        is_power_base(base, u, true),
        0 <= base.units() <= units_per_one(),
{
    let m: u64 = u.magnitude_bits();
    proof {
        let half = Double { bits: HALF_BITS };
        lemma_half_and_one();
        lemma_key_orders_units(u, half);
        lemma_key_orders_units(u, Double { bits: 0 });
        lemma_zero();
        lemma2_to64();
        assert(m <= HALF_BITS);
    }
    if m < FRACTION_SPAN {
        let base = Double::from_bits(2 * m);
        proof {
            assert(u.exponent_field() == 0);
            assert(u.significand() == m);
            assert(m * 1 == m);
            assert(u.units() == m);
            assert(base.magnitude() == 2 * m);
            assert(base.scale() == 0);
            assert(base.significand() == 2 * m);
            assert((2 * m) * 1 == 2 * m);
        }
        base
    } else {
        let base = Double::from_bits(m + FRACTION_SPAN);
        proof {
            assert(base.magnitude() == m + FRACTION_SPAN);
            assert(base.exponent_field() == u.exponent_field() + 1);
            assert(base.fraction_field() == u.fraction_field());
            assert(base.significand() == u.significand());
            assert(base.scale() == u.scale() + 1);
            lemma_pow2_unfold(u.scale() + 1);
            assert(u.significand() * (2 * pow2(u.scale())) == 2 * (u.significand() * pow2(
                u.scale(),
            ))) by (nonlinear_arith);
        }
        base
    }
}

/// `2(1 - u)` for a draw of at least one half. Both steps are exact: they need no
/// rounding. The result is above zero.
pub(crate) fn upper_base(u: Double) -> (base: Double)
    requires
        spec_is_unit_draw(u),
        2 * u.units() >= units_per_one(),
    ensures
        is_power_base(base, u, false),
        0 < base.units() <= units_per_one(),
{
    proof {
        lemma_half_and_one();
        lemma_key_orders_units(Double { bits: HALF_BITS }, u);
        lemma_key_orders_units(u, Double { bits: ONE_BITS });
        assert(HALF_BITS <= u.bits < ONE_BITS);
    }
    let fraction: u64 = u.bits - HALF_BITS;
    let rest: u64 = FRACTION_SPAN - fraction;
    let base = Double::from_scaled(rest, 1022);
    proof {
        let p = pow2(1021) as int;
        assert(u.exponent_field() == 1022);
        assert(u.fraction_field() == fraction);
        assert(u.units() == (FRACTION_SPAN + fraction) * p);
        lemma2_to64_rest();
        lemma_pow2_adds(53, 1021);
        lemma_pow2_unfold(1022);
        lemma_pow2_pos(1021);
        assert(units_per_one() == 0x20000000000000 * p);
        assert(pow2(1022) == 2 * p);
        assert(rest * (2 * p) == 2 * (0x20000000000000 * p - (FRACTION_SPAN + fraction) * p))
            by (nonlinear_arith)
            requires
                rest == FRACTION_SPAN - fraction,
                FRACTION_SPAN == 0x10000000000000,
        ;
        assert(0 < rest * (2 * p) <= 0x20000000000000 * p) by (nonlinear_arith)
            requires
                0 < rest <= 0x10000000000000,
                p > 0,
        ;
    }
    base
}

/// One uniform draw from `[0, 1)`: the draw of the source's next word. It is a whole
/// number of steps of 2^-52.
pub fn draw(rng: &mut StdRng) -> (u: Double)
    ensures
        spec_is_unit_draw(u),
        !u.is_negative(),
        u.units() % (pow2(1022) as int) == 0,
{
    let word = next_word(rng);
    let u = draw_of_word(word);
    proof {
        lemma_pow2_pos(1022);
        lemma_mod_multiples_basic(spec_steps(word) as int, pow2(1022) as int);
    }
    u
}

} // verus!
