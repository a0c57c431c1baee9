//! Sine and cosine of `pi * x` on fixed-point values.
//!
//! The argument is reduced modulo 2 (one full turn) into a quadrant index
//! and a remainder in `[-1/4, 1/4]` of the period, then two odd/even
//! minimax polynomials (five terms each, precomputed rational
//! coefficients) are evaluated in Horner form with `mul_add`, so each step
//! rounds only once. The quadrant selects sign and swap of the two
//! polynomial values.

use crate::fixed::{fix_mul, fix_mul_add, lemma_wrap_i64_in_range, wrap_i64, Fix64, FRAC_HALF,
    FRAC_ONE};
use vstd::prelude::*;

verus! {

/// Coefficient of x^1 in the sine polynomial: 26353589 / 2^24.
pub const SIN_C1: i64 = 26353589;

/// Coefficient of x^3 in the sine polynomial: -10837479 / 2^24.
pub const SIN_C3: i64 = -10837479;

/// Coefficient of x^5 in the sine polynomial: 334255 / 2^22.
pub const SIN_C5: i64 = 1337020;

/// Coefficient of x^7 in the sine polynomial: -78547 / 2^24.
pub const SIN_C7: i64 = -78547;

/// Coefficient of x^9 in the sine polynomial: 673 / 2^22.
pub const SIN_C9: i64 = 2692;

/// Coefficient of x^0 in the cosine polynomial: 1.
pub const COS_C0: i64 = 16777216;

/// Coefficient of x^2 in the cosine polynomial: -20698061 / 2^24.
pub const COS_C2: i64 = -20698061;

/// Coefficient of x^4 in the cosine polynomial: 1063967 / 2^22.
pub const COS_C4: i64 = 4255868;

/// Coefficient of x^6 in the cosine polynomial: -350031 / 2^24.
pub const COS_C6: i64 = -350031;

/// Coefficient of x^8 in the cosine polynomial: 15423 / 2^24.
pub const COS_C8: i64 = 15423;

/// Bits of the odd minimax polynomial approximating `sin(x * pi/2)`,
/// evaluated in Horner form over the square of the argument.
pub open spec fn sin_poly_bits(x: i64) -> i64 {
    let x2 = fix_mul(x, x);
    let r = fix_mul_add(0, x2, SIN_C9);
    let r = fix_mul_add(r, x2, SIN_C7);
    let r = fix_mul_add(r, x2, SIN_C5);
    let r = fix_mul_add(r, x2, SIN_C3);
    let r = fix_mul_add(r, x2, SIN_C1);
    fix_mul(r, x)
}

/// Bits of the even minimax polynomial approximating `cos(x * pi/2)`,
/// evaluated in Horner form over the square of the argument.
pub open spec fn cos_poly_bits(x: i64) -> i64 {
    let x2 = fix_mul(x, x);
    let r = fix_mul_add(0, x2, COS_C8);
    let r = fix_mul_add(r, x2, COS_C6);
    let r = fix_mul_add(r, x2, COS_C4);
    let r = fix_mul_add(r, x2, COS_C2);
    fix_mul_add(r, x2, COS_C0)
}

/// The quadrant index of `x` half-turns: reduce `x/2` to its fractional
/// part, scale to quarter turns, and round to the nearest. In `0..=4`.
pub open spec fn quarter_turns(x: i64) -> int {
    let s = ((x as int) / 2 % (FRAC_ONE as int)) * 4;
    (s + FRAC_HALF) / (FRAC_ONE as int)
}

/// The remainder after quadrant reduction, in quarter-turn units.
pub open spec fn quadrant_rem(x: i64) -> int {
    let s = ((x as int) / 2 % (FRAC_ONE as int)) * 4;
    s - quarter_turns(x) * (FRAC_ONE as int)
}

/// Bits of `(sin(pi * x), cos(pi * x))`: quadrant reduction followed by the
/// two polynomials, with sign and swap chosen by the quadrant.
pub open spec fn sin_cos_pi_bits(x: i64) -> (i64, i64) {
    let r = quadrant_rem(x) as i64;
    let s = sin_poly_bits(r);
    let c = cos_poly_bits(r);
    let q = quarter_turns(x) % 4;
    if q == 0 {
        (s, c)
    } else if q == 1 {
        (c, wrap_i64(-s))
    } else if q == 2 {
        (wrap_i64(-s), wrap_i64(-c))
    } else {
        (wrap_i64(-c), s)
    }
}

/// Law: the approximation is periodic in one full turn: adding 2 to the
/// argument (wrapping like the representation) changes nothing, because
/// the argument is reduced modulo 2 before anything else looks at it.
pub proof fn lemma_sin_cos_pi_periodic(x: i64)
    ensures
        sin_cos_pi_bits(wrap_i64(x + 0x200_0000)) == sin_cos_pi_bits(x),
{
    let span = 0x1_0000_0000_0000_0000int;
    let one = FRAC_ONE as int;
    let w = wrap_i64(x + 0x200_0000) as int;
    if x + 0x200_0000 <= i64::MAX {
        lemma_wrap_i64_in_range(x + 0x200_0000);
        assert(w == x + 0x200_0000);
    } else {
        vstd::arithmetic::div_mod::lemma_mod_add_multiples_vanish(x + 0x200_0000 - span, span);
        vstd::arithmetic::div_mod::lemma_small_mod((x + 0x200_0000 - span + span) as nat,
            span as nat);
        assert(w == x + 0x200_0000 - span);
    }
    // Halving strips the turn count down to a multiple of the fraction
    // unit, which the reduction modulo one then discards.
    vstd::arithmetic::div_mod::lemma_hoist_over_denominator(x as int, 0x100_0000, 2);
    assert((x + 0x200_0000) / 2 == x / 2 + 0x100_0000);
    vstd::arithmetic::div_mod::lemma_hoist_over_denominator(x as int, 0x100_0000 - 0x4000_0000_0000_0000, 2);
    assert((x + 0x200_0000 - span) / 2 == x / 2 + 0x100_0000 - 0x8000_0000_0000_0000);
    vstd::arithmetic::div_mod::lemma_mod_multiples_vanish(1, x / 2, one);
    assert((x / 2 + 0x100_0000) % one == (x / 2) % one);
    vstd::arithmetic::div_mod::lemma_mod_multiples_vanish(1 - 0x80_0000_0000, x / 2, one);
    assert((x / 2 + 0x100_0000 - 0x8000_0000_0000_0000) % one == (x / 2) % one);
    assert(w / 2 % one == (x as int) / 2 % one);
    assert(quarter_turns(w as i64) == quarter_turns(x));
    assert(quadrant_rem(w as i64) == quadrant_rem(x));
}

/// Evaluate the sine polynomial on `x` (in quarter-turn units).
fn sin_pi_over_2_poly(x: Fix64) -> (r: Fix64)
    ensures
        r@ == sin_poly_bits(x@),
{
    let x_sq = x.mul(x);
    let r = Fix64::from_bits(0).mul_add(x_sq, Fix64::from_bits(SIN_C9));
    let r = r.mul_add(x_sq, Fix64::from_bits(SIN_C7));
    let r = r.mul_add(x_sq, Fix64::from_bits(SIN_C5));
    let r = r.mul_add(x_sq, Fix64::from_bits(SIN_C3));
    let r = r.mul_add(x_sq, Fix64::from_bits(SIN_C1));
    r.mul(x)
}

/// Evaluate the cosine polynomial on `x` (in quarter-turn units).
fn cos_pi_over_2_poly(x: Fix64) -> (r: Fix64)
    ensures
        r@ == cos_poly_bits(x@),
{
    let x_sq = x.mul(x);
    let r = Fix64::from_bits(0).mul_add(x_sq, Fix64::from_bits(COS_C8));
    let r = r.mul_add(x_sq, Fix64::from_bits(COS_C6));
    let r = r.mul_add(x_sq, Fix64::from_bits(COS_C4));
    let r = r.mul_add(x_sq, Fix64::from_bits(COS_C2));
    r.mul_add(x_sq, Fix64::from_bits(COS_C0))
}

/// `(sin(pi * x), cos(pi * x))` as fixed-point values.
pub fn sin_cos_pi(x: Fix64) -> (r: (Fix64, Fix64))
    ensures
        r.0@ == sin_cos_pi_bits(x@).0,
        r.1@ == sin_cos_pi_bits(x@).1,
{
    let b = x.as_bits();
    let h = b.checked_div_euclid(2).unwrap();
    let f = h.checked_rem_euclid(FRAC_ONE).unwrap();
    let s = f * 4;
    let xi = (s + FRAC_HALF).checked_div_euclid(FRAC_ONE).unwrap();
    assert(0 <= xi <= 4);
    let rem = s - xi * FRAC_ONE;
    assert(rem == quadrant_rem(x@));
    let q = if xi == 4 {
        0
    } else {
        xi
    };
    assert(q == quarter_turns(x@) % 4);
    let rf = Fix64::from_bits(rem);
    if q == 0 {
        (sin_pi_over_2_poly(rf), cos_pi_over_2_poly(rf))
    } else if q == 1 {
        (cos_pi_over_2_poly(rf), sin_pi_over_2_poly(rf).neg())
    } else if q == 2 {
        (sin_pi_over_2_poly(rf).neg(), cos_pi_over_2_poly(rf).neg())
    } else {
        (cos_pi_over_2_poly(rf).neg(), sin_pi_over_2_poly(rf))
    }
}

} // verus!
