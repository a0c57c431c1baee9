//! Signed fixed-point scalar with 24 fractional bits.
//!
//! A `Fix64` wraps an `i64`; the low `FRAC_BITS` bits are the fraction.
//! All arithmetic is defined purely on that integer representation:
//! addition and subtraction wrap like the underlying integer, while
//! multiplication and division compute through a 128-bit intermediate and
//! lose precision only once, at the final shift down to the representation
//! grid. The contracts below state every result exactly, in terms of the
//! mathematical integers, with two's-complement wrapping made explicit.
//!
//! Division and remainder by a zero divisor are excluded by precondition:
//! the underlying integer division would fault on them, and the verified
//! core never faults.

use vstd::prelude::*;
use vstd::std_specs::cmp::{PartialEqSpecImpl, PartialOrdSpecImpl};

verus! {

/// Number of fractional bits in the representation.
pub const FRAC_BITS: u32 = 24;

/// The representation of 1, i.e. `1 << FRAC_BITS`.
pub const FRAC_ONE: i64 = 0x100_0000;

/// Mask of the fractional bits.
pub const FRAC_MASK: i64 = 0xFF_FFFF;

/// The representation of 1/2.
pub const FRAC_HALF: i64 = 0x80_0000;

/// 2^64, the size of the `i64` value space.
pub const I64_SPAN: i128 = 0x1_0000_0000_0000_0000;

/// Absolute value of a mathematical integer.
pub open spec fn int_abs(x: int) -> int {
    if x < 0 {
        -x
    } else {
        x
    }
}

/// Reduce a mathematical integer into the `i64` range by two's-complement
/// wrapping: the result is congruent to `x` modulo 2^64.
pub open spec fn wrap_i64(x: int) -> i64 {
    if x % (I64_SPAN as int) > i64::MAX as int {
        (x % (I64_SPAN as int) - I64_SPAN as int) as i64
    } else {
        (x % (I64_SPAN as int)) as i64
    }
}

/// Quotient of `x / d` truncated toward zero, as Rust's integer `/` computes it.
pub open spec fn div_trunc(x: int, d: int) -> int
    recommends
        d != 0,
{
    let q = int_abs(x) / int_abs(d);
    if (x < 0) != (d < 0) {
        -q
    } else {
        q
    }
}

/// Remainder of `x / d` with the sign of `x`, as Rust's integer `%` computes it.
pub open spec fn rem_trunc(x: int, d: int) -> int
    recommends
        d != 0,
{
    x - d * div_trunc(x, d)
}

/// Bits of the product of two fixed-point numbers: the double-width product
/// shifted down to the grid (flooring), then wrapped into `i64`.
pub open spec fn fix_mul(a: i64, b: i64) -> i64 {
    wrap_i64((a * b) / (FRAC_ONE as int))
}

/// Bits of the quotient: the numerator widened by `FRAC_BITS`, divided with
/// truncation toward zero, then wrapped into `i64`. Also the representation
/// of the rational `a / b` when `a` and `b` are plain integers.
pub open spec fn fix_div(a: i64, b: i64) -> i64
    recommends
        b != 0,
{
    wrap_i64(div_trunc(a * (FRAC_ONE as int), b as int))
}

/// Bits of `a * b + c` computed with a single final rounding step.
pub open spec fn fix_mul_add(a: i64, b: i64, c: i64) -> i64 {
    wrap_i64((a * b + c * (FRAC_ONE as int)) / (FRAC_ONE as int))
}

/// Wrapping `x` leaves it unchanged when it already fits in an `i64`.
pub broadcast proof fn lemma_wrap_i64_in_range(x: int)
    requires
        i64::MIN <= x <= i64::MAX,
    ensures
        #[trigger] wrap_i64(x) == x,
{
    let span = I64_SPAN as int;
    if x >= 0 {
        vstd::arithmetic::div_mod::lemma_small_mod(x as nat, span as nat);
    } else {
        vstd::arithmetic::div_mod::lemma_mod_add_multiples_vanish(x, span);
        vstd::arithmetic::div_mod::lemma_small_mod((x + span) as nat, span as nat);
    }
}

/// The product of two `i64` values fits comfortably inside `i128`.
pub proof fn lemma_i64_product_fits(a: int, b: int)
    by (nonlinear_arith)
    requires
        i64::MIN <= a <= i64::MAX,
        i64::MIN <= b <= i64::MAX,
    ensures
        -0x4000_0000_0000_0000_0000_0000_0000_0000 <= a * b
            <= 0x4000_0000_0000_0000_0000_0000_0000_0000,
{
}

/// Truncating division shrinks the magnitude of the dividend.
proof fn lemma_div_trunc_bound(x: int, d: int)
    requires
        d != 0,
    ensures
        int_abs(div_trunc(x, d)) <= int_abs(x),
{
    vstd::arithmetic::div_mod::lemma_div_nonincreasing(int_abs(x), int_abs(d));
    vstd::arithmetic::div_mod::lemma_div_pos_is_pos(int_abs(x), int_abs(d));
}

/// A signed fixed-point number: `bits / 2^FRAC_BITS`.
#[derive(Clone, Copy, Eq, Ord)]
pub struct Fix64 {
    bits: i64,
}

impl View for Fix64 {
    type V = i64;

    closed spec fn view(&self) -> i64 {
        self.bits
    }
}

impl PartialEq for Fix64 {
    fn eq(&self, other: &Fix64) -> (r: bool)
        ensures
            r == (self@ == other@),
    {
        self.bits == other.bits
    }
}

impl PartialEqSpecImpl for Fix64 {
    open spec fn obeys_eq_spec() -> bool {
        true
    }

    open spec fn eq_spec(&self, other: &Fix64) -> bool {
        self@ == other@
    }
}

impl PartialOrd for Fix64 {
    fn partial_cmp(&self, other: &Fix64) -> Option<core::cmp::Ordering> {
        if self.bits < other.bits {
            Some(core::cmp::Ordering::Less)
        } else if self.bits > other.bits {
            Some(core::cmp::Ordering::Greater)
        } else {
            Some(core::cmp::Ordering::Equal)
        }
    }
}

impl PartialOrdSpecImpl for Fix64 {
    open spec fn obeys_partial_cmp_spec() -> bool {
        true
    }

    open spec fn partial_cmp_spec(&self, other: &Fix64) -> Option<core::cmp::Ordering> {
        if self@ < other@ {
            Some(core::cmp::Ordering::Less)
        } else if self@ > other@ {
            Some(core::cmp::Ordering::Greater)
        } else {
            Some(core::cmp::Ordering::Equal)
        }
    }
}

impl Default for Fix64 {
    /// The zero value.
    fn default() -> (r: Fix64)
        ensures
            r@ == 0,
    {
        Fix64 { bits: 0 }
    }
}

/// Truncating division on `i128`, written with explicit absolute values.
fn div_trunc_i128(x: i128, d: i128) -> (q: i128)
    requires
        d != 0,
        x != i128::MIN,
        d != i128::MIN,
    ensures
        q == div_trunc(x as int, d as int),
{
    let xa: i128 = if x < 0 {
        -x
    } else {
        x
    };
    let da: i128 = if d < 0 {
        -d
    } else {
        d
    };
    proof {
        vstd::arithmetic::div_mod::lemma_div_nonincreasing(xa as int, da as int);
        vstd::arithmetic::div_mod::lemma_div_pos_is_pos(xa as int, da as int);
    }
    let qa = xa.checked_div_euclid(da).unwrap();
    if (x < 0) != (d < 0) {
        -qa
    } else {
        qa
    }
}

/// Reduce an `i128` into the `i64` range by two's-complement wrapping.
pub(crate) fn crop_to_i64(x: i128) -> (r: i64)
    ensures
        r == wrap_i64(x as int),
{
    let m = x.checked_rem_euclid(I64_SPAN).unwrap();
    if m > i64::MAX as i128 {
        (m - I64_SPAN) as i64
    } else {
        m as i64
    }
}

/// Compute `2^n` as an `i128`.
fn pow2_i128(n: u32) -> (r: i128)
    requires
        n < 64,
    ensures
        r == vstd::arithmetic::power2::pow2(n as nat),
        1 <= r <= 0x8000_0000_0000_0000,
{
    proof {
        vstd::arithmetic::power2::lemma2_to64();
        vstd::arithmetic::power2::lemma2_to64_rest();
    }
    let mut m: i128 = 1;
    let mut i: u32 = 0;
    while i < n
        invariant
            i <= n < 64,
            m == vstd::arithmetic::power2::pow2(i as nat),
            1 <= m <= 0x8000_0000_0000_0000,
        decreases n - i,
    {
        proof {
            if i as nat + 1 < 63 {
                vstd::arithmetic::power2::lemma_pow2_strictly_increases(i as nat + 1, 63);
            }
            vstd::arithmetic::power2::lemma2_to64_rest();
            assert(vstd::arithmetic::power2::pow2(i as nat + 1) == 2 * vstd::arithmetic::power2::pow2(
                i as nat,
            )) by {
                vstd::arithmetic::power2::lemma_pow2_unfold(i as nat + 1);
            }
        }
        m = m * 2;
        i = i + 1;
    }
    m
}

impl Fix64 {
    /// Construct directly from the underlying bit representation.
    pub fn from_bits(v: i64) -> (r: Self)
        ensures
            r@ == v,
    {
        Fix64 { bits: v }
    }

    /// The underlying bit representation.
    pub fn as_bits(self) -> (r: i64)
        ensures
            r == self@,
    {
        self.bits
    }

    /// The representation of the integer `v`, wrapping if `v * 2^24` overflows.
    pub fn from_int(v: i64) -> (r: Self)
        ensures
            r@ == wrap_i64(v * (FRAC_ONE as int)),
            i64::MIN <= v * (FRAC_ONE as int) <= i64::MAX ==> r@ == v * (FRAC_ONE as int),
    {
        proof {
            broadcast use lemma_wrap_i64_in_range;

            lemma_i64_product_fits(v as int, FRAC_ONE as int);
        }
        Fix64 { bits: crop_to_i64(v as i128 * FRAC_ONE as i128) }
    }

    /// The closest representation at or below `num / denom` in magnitude,
    /// computed at full precision through a 128-bit intermediate.
    pub fn from_rat(num: i64, denom: i64) -> (r: Self)
        requires
            denom != 0,
        ensures
            r@ == fix_div(num, denom),
    {
        proof {
            lemma_i64_product_fits(num as int, FRAC_ONE as int);
        }
        let n = num as i128 * FRAC_ONE as i128;
        let q = div_trunc_i128(n, denom as i128);
        Fix64 { bits: crop_to_i64(q) }
    }

    /// Keep only the fractional bits; the result is in `[0, 1)`.
    pub fn floor_fract(self) -> (r: Self)
        ensures
            r@ == (self@ as int) % (FRAC_ONE as int),
    {
        Fix64 { bits: self.bits.checked_rem_euclid(FRAC_ONE).unwrap() }
    }

    /// Largest integer at or below the value.
    pub fn floor(self) -> (r: i64)
        ensures
            r == (self@ as int) / (FRAC_ONE as int),
    {
        self.bits.checked_div_euclid(FRAC_ONE).unwrap()
    }

    /// Round half up: add one half, then floor. The offset add wraps.
    pub fn round(self) -> (r: i64)
        ensures
            r == (wrap_i64(self@ + FRAC_HALF) as int) / (FRAC_ONE as int),
            self@ + FRAC_HALF <= i64::MAX ==> r == (self@ + FRAC_HALF) / (FRAC_ONE as int),
    {
        proof {
            broadcast use lemma_wrap_i64_in_range;
        }
        let s = crop_to_i64(self.bits as i128 + FRAC_HALF as i128);
        s.checked_div_euclid(FRAC_ONE).unwrap()
    }

    /// Smallest integer at or above the value. The offset add wraps.
    pub fn ceil(self) -> (r: i64)
        ensures
            r == (wrap_i64(self@ + FRAC_MASK) as int) / (FRAC_ONE as int),
            self@ + FRAC_MASK <= i64::MAX ==> r == (self@ + FRAC_MASK) / (FRAC_ONE as int),
    {
        proof {
            broadcast use lemma_wrap_i64_in_range;
        }
        let s = crop_to_i64(self.bits as i128 + FRAC_MASK as i128);
        s.checked_div_euclid(FRAC_ONE).unwrap()
    }

    /// Integer part, truncated toward zero.
    pub fn trunc(self) -> (r: i64)
        ensures
            r == div_trunc(self@ as int, FRAC_ONE as int),
    {
        proof {
            lemma_div_trunc_bound(self@ as int, FRAC_ONE as int);
        }
        self.bits.checked_div(FRAC_ONE).unwrap()
    }

    /// Absolute value; the single unrepresentable case `i64::MIN` wraps to itself.
    pub fn abs(self) -> (r: Self)
        ensures
            r@ == (if self@ == i64::MIN {
                i64::MIN as int
            } else {
                int_abs(self@ as int)
            }),
    {
        if self.bits == i64::MIN {
            self
        } else if self.bits < 0 {
            Fix64 { bits: -self.bits }
        } else {
            self
        }
    }

    /// Whether the value is exactly zero.
    pub fn is_zero(self) -> (r: bool)
        ensures
            r == (self@ == 0),
    {
        self.bits == 0
    }

    /// Whether the value is strictly negative.
    pub fn is_negative(self) -> (r: bool)
        ensures
            r == (self@ < 0),
    {
        self.bits < 0
    }

    /// Whether the value is strictly positive.
    pub fn is_positive(self) -> (r: bool)
        ensures
            r == (self@ > 0),
    {
        self.bits > 0
    }

    /// Sign of the value: -1, 0 or 1.
    pub fn signum(self) -> (r: i64)
        ensures
            r == (if self@ < 0 {
                -1int
            } else if self@ == 0 {
                0int
            } else {
                1int
            }),
    {
        if self.bits < 0 {
            -1
        } else if self.bits == 0 {
            0
        } else {
            1
        }
    }

    /// Computes `(self * a) + b`, rounding once at the end: whenever the
    /// mathematical result is representable, it is the floor of
    /// `(self * a + b * 2^24) / 2^24`, a single final rounding.
    pub fn mul_add(self, a: Self, b: Self) -> (r: Self)
        ensures
            r@ == fix_mul_add(self@, a@, b@),
            i64::MIN <= (self@ * a@ + b@ * (FRAC_ONE as int)) / (FRAC_ONE as int) <= i64::MAX
                ==> r@ == (self@ * a@ + b@ * (FRAC_ONE as int)) / (FRAC_ONE as int),
    {
        proof {
            lemma_i64_product_fits(self@ as int, a@ as int);
            lemma_i64_product_fits(b@ as int, FRAC_ONE as int);
            broadcast use lemma_wrap_i64_in_range;
        }
        let prod = self.bits as i128 * a.bits as i128;
        let sum = prod + (b.bits as i128 * FRAC_ONE as i128);
        let q = sum.checked_div_euclid(FRAC_ONE as i128).unwrap();
        Fix64 { bits: crop_to_i64(q) }
    }

    /// Sum, wrapping like the underlying integer.
    pub fn add(self, rhs: Fix64) -> (r: Self)
        ensures
            r@ == wrap_i64(self@ + rhs@),
            i64::MIN <= self@ + rhs@ <= i64::MAX ==> r@ == self@ + rhs@,
    {
        proof {
            broadcast use lemma_wrap_i64_in_range;
        }
        Fix64 { bits: crop_to_i64(self.bits as i128 + rhs.bits as i128) }
    }

    /// Difference, wrapping like the underlying integer.
    pub fn sub(self, rhs: Fix64) -> (r: Self)
        ensures
            r@ == wrap_i64(self@ - rhs@),
            i64::MIN <= self@ - rhs@ <= i64::MAX ==> r@ == self@ - rhs@,
    {
        proof {
            broadcast use lemma_wrap_i64_in_range;
        }
        Fix64 { bits: crop_to_i64(self.bits as i128 - rhs.bits as i128) }
    }

    /// Negation, wrapping like the underlying integer.
    pub fn neg(self) -> (r: Self)
        ensures
            r@ == wrap_i64(-(self@ as int)),
            self@ != i64::MIN ==> r@ == -(self@ as int),
    {
        proof {
            broadcast use lemma_wrap_i64_in_range;
        }
        Fix64 { bits: crop_to_i64(-(self.bits as i128)) }
    }

    /// Product: double-width multiply, floor-shift down to the grid, wrap.
    pub fn mul(self, rhs: Fix64) -> (r: Self)
        ensures
            r@ == fix_mul(self@, rhs@),
            i64::MIN <= (self@ * rhs@) / (FRAC_ONE as int) <= i64::MAX ==> r@ == (self@ * rhs@)
                / (FRAC_ONE as int),
    {
        proof {
            lemma_i64_product_fits(self@ as int, rhs@ as int);
            broadcast use lemma_wrap_i64_in_range;
        }
        let prod = self.bits as i128 * rhs.bits as i128;
        let q = prod.checked_div_euclid(FRAC_ONE as i128).unwrap();
        Fix64 { bits: crop_to_i64(q) }
    }

    /// Quotient: numerator widened by `FRAC_BITS`, truncating division, wrap.
    pub fn div(self, rhs: Fix64) -> (r: Self)
        requires
            rhs@ != 0,
        ensures
            r@ == fix_div(self@, rhs@),
    {
        proof {
            lemma_i64_product_fits(self@ as int, FRAC_ONE as int);
        }
        let n = self.bits as i128 * FRAC_ONE as i128;
        let q = div_trunc_i128(n, rhs.bits as i128);
        Fix64 { bits: crop_to_i64(q) }
    }

    /// Shift the representation left: multiply by `2^n`, wrapping.
    pub fn shl(self, n: u32) -> (r: Self)
        requires
            n < 64,
        ensures
            r@ == wrap_i64(self@ * vstd::arithmetic::power2::pow2(n as nat)),
    {
        let m = pow2_i128(n);
        proof {
            assert(-0x4000_0000_0000_0000_0000_0000_0000_0000 <= (self@ as int) * (m as int)
                <= 0x4000_0000_0000_0000_0000_0000_0000_0000) by (nonlinear_arith)
                requires
                    -0x8000_0000_0000_0000 <= self@ as int <= 0x7FFF_FFFF_FFFF_FFFF && 0
                        <= m as int <= 0x8000_0000_0000_0000int,
            ;
        }
        Fix64 { bits: crop_to_i64(self.bits as i128 * m) }
    }

    /// Shift the representation right arithmetically: floor-divide by `2^n`.
    pub fn shr(self, n: u32) -> (r: Self)
        requires
            n < 64,
        ensures
            r@ == (self@ as int) / (vstd::arithmetic::power2::pow2(n as nat) as int),
    {
        let m = pow2_i128(n);
        proof {
            let lhs = self@ as int;
            let q = lhs / (m as int);
            if lhs >= 0 {
                vstd::arithmetic::div_mod::lemma_div_nonincreasing(lhs, m as int);
                vstd::arithmetic::div_mod::lemma_div_pos_is_pos(lhs, m as int);
            } else {
                let rr = lhs % (m as int);
                vstd::arithmetic::div_mod::lemma_fundamental_div_mod(lhs, m as int);
                vstd::arithmetic::div_mod::lemma_mod_bound(lhs, m as int);
                assert(q < 0) by (nonlinear_arith)
                    requires
                        (m as int) * q == lhs - rr && lhs - rr < 0 && m >= 1,
                ;
                assert(q >= lhs) by (nonlinear_arith)
                    requires
                        (m as int) * q + rr == lhs && 0 <= rr < m as int && m >= 1 && q <= -1,
                ;
            }
        }
        let q = (self.bits as i128).checked_div_euclid(m).unwrap();
        Fix64 { bits: q as i64 }
    }

    /// Remainder of the underlying integers, with the sign of `self`.
    pub fn rem(self, rhs: Fix64) -> (r: Self)
        requires
            rhs@ != 0,
            !(self@ == i64::MIN && rhs@ == -1),
        ensures
            r@ == rem_trunc(self@ as int, rhs@ as int),
    {
        proof {
            lemma_rem_trunc_matches(self@ as int, rhs@ as int);
        }
        Fix64 { bits: self.bits.checked_rem(rhs.bits).unwrap() }
    }
}

/// Rust's truncating remainder equals `x - d * div_trunc(x, d)`.
proof fn lemma_rem_trunc_matches(x: int, d: int)
    requires
        d != 0,
    ensures
        rem_trunc(x, d) == (if x == 0 {
            0int
        } else if x > 0 && d > 0 {
            x % d
        } else if x < 0 && d < 0 {
            ((x * -1) % (d * -1)) * -1
        } else if x < 0 {
            ((x * -1) % d) * -1
        } else {
            x % (d * -1)
        }),
        int_abs(rem_trunc(x, d)) < int_abs(d),
{
    let a = int_abs(x);
    let b = int_abs(d);
    let q = a / b;
    let m = a % b;
    vstd::arithmetic::div_mod::lemma_fundamental_div_mod(a, b);
    vstd::arithmetic::div_mod::lemma_mod_bound(a, b);
    vstd::arithmetic::div_mod::lemma_div_pos_is_pos(a, b);
    assert(a == b * q + m);
    if x >= 0 && d > 0 {
        assert(x - d * q == m) by (nonlinear_arith)
            requires
                x == b * q + m && b == d;
        assert(rem_trunc(x, d) == m);
    } else if x < 0 && d < 0 {
        assert(x - d * q == -m) by (nonlinear_arith)
            requires
                -x == b * q + m && b == -d;
        assert(rem_trunc(x, d) == -m);
    } else if x < 0 {
        assert(x - d * -q == -m) by (nonlinear_arith)
            requires
                -x == b * q + m && b == d;
        assert(rem_trunc(x, d) == -m);
    } else {
        assert(x - d * -q == m) by (nonlinear_arith)
            requires
                x == b * q + m && b == -d;
        assert(rem_trunc(x, d) == m);
    }
}

/// Wrapping respects addition: a pre-wrapped summand does not change the
/// wrapped sum.
pub proof fn lemma_wrap_i64_congruent(a: int, b: int)
    ensures
        wrap_i64(wrap_i64(a) as int + b) == wrap_i64(a + b),
{
    let span = I64_SPAN as int;
    let w = wrap_i64(a) as int;
    vstd::arithmetic::div_mod::lemma_mod_bound(a, span);
    vstd::arithmetic::div_mod::lemma_add_mod_noop(a % span, b, span);
    vstd::arithmetic::div_mod::lemma_add_mod_noop(a, b, span);
    vstd::arithmetic::div_mod::lemma_mod_twice(a, span);
    vstd::arithmetic::div_mod::lemma_mod_twice(b, span);
    if a % span > i64::MAX as int {
        assert(w == a % span - span);
        vstd::arithmetic::div_mod::lemma_mod_add_multiples_vanish(a % span - span + b, span);
        vstd::arithmetic::div_mod::lemma_add_mod_noop(a % span, b, span);
        assert((w + b) % span == (a % span + b) % span);
        assert((a % span + b) % span == ((a % span) % span + b % span) % span);
        assert((a % span + b) % span == (a + b) % span);
    } else {
        assert(w == a % span);
        assert((w + b) % span == ((a % span) % span + b % span) % span);
        assert((w + b) % span == (a + b) % span);
    }
}

/// What a fixed-point division comes to, given the quotient and
/// remainder of the widened numerator by the divisor.
pub proof fn lemma_fix_div_value(a: i64, b: i64, q: i64, r: i64)
    requires
        b > 0,
        a >= 0,
        q >= 0,
        0 <= r < b,
        a * (FRAC_ONE as int) == q * b + r,
    ensures
        fix_div(a, b) == q,
{
    vstd::arithmetic::div_mod::lemma_fundamental_div_mod_converse(
        a * (FRAC_ONE as int),
        b as int,
        q as int,
        r as int,
    );
    lemma_wrap_i64_in_range(q as int);
}

/// What a fixed-point product comes to, given the quotient and remainder
/// of the double-width product by the grid unit.
pub proof fn lemma_fix_mul_value(a: i64, b: i64, q: i64, r: i64)
    requires
        0 <= r < FRAC_ONE,
        a * b == q * (FRAC_ONE as int) + r,
    ensures
        fix_mul(a, b) == q,
{
    vstd::arithmetic::div_mod::lemma_fundamental_div_mod_converse(
        a * b,
        FRAC_ONE as int,
        q as int,
        r as int,
    );
    lemma_wrap_i64_in_range(q as int);
}

/// Law: a `mul_add` whose multiplier is zero returns its addend exactly;
/// the one rounding step cannot disturb it.
pub proof fn lemma_mul_add_zero(x: i64, b: i64)
    ensures
        fix_mul_add(x, 0, b) == b,
{
    let one = FRAC_ONE as int;
    vstd::arithmetic::div_mod::lemma_div_multiples_vanish(b as int, one);
    lemma_wrap_i64_in_range(b as int);
}

/// Law: `mul_add` rounds exactly once: it equals the product (with its
/// single rounding) followed by an exact wrapping addition. Iterating it
/// over a polynomial therefore loses precision only at the multiplies.
pub proof fn lemma_mul_add_rounds_once(a: i64, b: i64, c: i64)
    ensures
        fix_mul_add(a, b, c) == wrap_i64(fix_mul(a, b) as int + c),
{
    let one = FRAC_ONE as int;
    let q = (a * b) / one;
    vstd::arithmetic::div_mod::lemma_hoist_over_denominator(a * b, c as int, FRAC_ONE as nat);
    assert((a * b + c * one) / one == q + c);
    lemma_wrap_i64_congruent(q, c as int);
}

/// The character for the hex digit `d` (lower case).
pub open spec fn hex_digit_char(d: int) -> char
    recommends
        0 <= d < 16,
{
    if d < 10 {
        ((d + 48) as u8) as char
    } else {
        ((d + 87) as u8) as char
    }
}

/// Minimal-width lower-case hex rendering of a non-negative integer.
pub open spec fn hex_seq(n: int) -> Seq<char>
    recommends
        n >= 0,
    decreases n,
{
    if n < 16 {
        seq![hex_digit_char(n)]
    } else {
        hex_seq(n / 16) + seq![hex_digit_char(n % 16)]
    }
}

/// Exactly `k` hex digits of `n`, most significant first (zero padded).
pub open spec fn hex_fixed_seq(n: int, k: nat) -> Seq<char>
    recommends
        n >= 0,
    decreases k,
{
    if k == 0 {
        Seq::empty()
    } else {
        hex_fixed_seq(n / 16, (k - 1) as nat) + seq![hex_digit_char(n % 16)]
    }
}

/// The display form of a fixed-point value: optional sign, hex integer
/// part, a point, and the six hex digits of the 24 fractional bits.
pub open spec fn fix_display_seq(bits: i64) -> Seq<char> {
    let v = int_abs(bits as int);
    let sign: Seq<char> = if bits < 0 {
        seq!['-']
    } else {
        Seq::empty()
    };
    sign + seq!['0', 'x'] + hex_seq(v / (FRAC_ONE as int)) + seq!['.'] + hex_fixed_seq(
        v % (FRAC_ONE as int),
        6,
    )
}

/// Append the single character of the hex digit `d` to `s`.
fn push_hex_digit(s: &mut String, d: u8)
    requires
        d < 16,
    ensures
        final(s)@ == old(s)@ + seq![hex_digit_char(d as int)],
{
    proof {
        reveal_strlit("0");
        reveal_strlit("1");
        reveal_strlit("2");
        reveal_strlit("3");
        reveal_strlit("4");
        reveal_strlit("5");
        reveal_strlit("6");
        reveal_strlit("7");
        reveal_strlit("8");
        reveal_strlit("9");
        reveal_strlit("a");
        reveal_strlit("b");
        reveal_strlit("c");
        reveal_strlit("d");
        reveal_strlit("e");
        reveal_strlit("f");
    }
    let t: &str = if d == 0 {
        "0"
    } else if d == 1 {
        "1"
    } else if d == 2 {
        "2"
    } else if d == 3 {
        "3"
    } else if d == 4 {
        "4"
    } else if d == 5 {
        "5"
    } else if d == 6 {
        "6"
    } else if d == 7 {
        "7"
    } else if d == 8 {
        "8"
    } else if d == 9 {
        "9"
    } else if d == 10 {
        "a"
    } else if d == 11 {
        "b"
    } else if d == 12 {
        "c"
    } else if d == 13 {
        "d"
    } else if d == 14 {
        "e"
    } else {
        "f"
    };
    s.append(t);
    proof {
        assert(final(s)@ =~= old(s)@ + seq![hex_digit_char(d as int)]);
    }
}

/// Append the minimal hex rendering of `n`.
fn push_hex(s: &mut String, n: u64)
    ensures
        final(s)@ == old(s)@ + hex_seq(n as int),
    decreases n,
{
    if n < 16 {
        push_hex_digit(s, n as u8);
    } else {
        push_hex(s, n / 16);
        push_hex_digit(s, (n % 16) as u8);
        proof {
            assert(final(s)@ =~= old(s)@ + hex_seq(n as int));
        }
    }
}

/// Append exactly `k` hex digits of `n`, most significant first.
fn push_hex_fixed(s: &mut String, n: u64, k: u8)
    ensures
        final(s)@ == old(s)@ + hex_fixed_seq(n as int, k as nat),
    decreases k,
{
    if k > 0 {
        push_hex_fixed(s, n / 16, k - 1);
        push_hex_digit(s, (n % 16) as u8);
        proof {
            assert(final(s)@ =~= old(s)@ + hex_fixed_seq(n as int, k as nat));
        }
    } else {
        proof {
            assert(final(s)@ =~= old(s)@ + hex_fixed_seq(n as int, 0));
        }
    }
}

impl Fix64 {
    /// Render as lower-case hex, e.g. `-0x3.c00001`: the display form of
    /// the value, without any floating-point involvement.
    pub fn to_display_string(self) -> (s: String)
        ensures
            s@ == fix_display_seq(self@),
    {
        proof {
            reveal_strlit("-");
            reveal_strlit("0x");
            reveal_strlit(".");
        }
        let v: u64 = if self.bits == i64::MIN {
            0x8000_0000_0000_0000u64
        } else if self.bits < 0 {
            (-self.bits) as u64
        } else {
            self.bits as u64
        };
        let mut s = String::new();
        if self.bits < 0 {
            s.append("-");
        }
        s.append("0x");
        push_hex(&mut s, v / (FRAC_ONE as u64));
        s.append(".");
        push_hex_fixed(&mut s, v % (FRAC_ONE as u64), 6);
        proof {
            assert(s@ =~= fix_display_seq(self@));
        }
        s
    }
}

} // verus!
