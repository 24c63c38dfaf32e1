//! Signed fixed-point scalars with nanosecond resolution.
//!
//! Every scalar the synthesiser works with — amplitudes, frequencies, volumes,
//! duty cycles and phase offsets — is a [`Fixed`] value: a signed numerator
//! over the fixed denominator [`FIXED_SCALE`]. Arithmetic saturates at the
//! representable bounds instead of wrapping or failing, matching the
//! engine's silent-degradation error policy.

use vstd::prelude::*;

verus! {

/// Number of fixed-point steps per whole unit: a [`Fixed`] with numerator `n`
/// stands for the value `n / FIXED_SCALE`.
pub const FIXED_SCALE: i64 = 1_000_000_000;

/// A signed fixed-point scalar with resolution `1 / FIXED_SCALE`.
#[derive(Clone, Copy, Debug, PartialEq, Eq, Structural)]
pub struct Fixed {
    /// The represented value multiplied by [`FIXED_SCALE`].
    pub numer: i64,
}

/// Clamps an unbounded integer into the range of `i64`.
pub open spec fn sat64(x: int) -> int {
    if x > i64::MAX as int {
        i64::MAX as int
    } else if x < i64::MIN as int {
        i64::MIN as int
    } else {
        x
    }
}

/// Division truncating toward zero (the rounding of the scalar product),
/// for a positive divisor.
pub open spec fn tdiv(x: int, d: int) -> int {
    if x >= 0 {
        x / d
    } else {
        -((-x) / d)
    }
}

/// The numerator of the saturating fixed-point product of two numerators.
pub open spec fn mul_numer(a: int, b: int) -> int {
    sat64(tdiv(a * b, FIXED_SCALE as int))
}

/// The numerator of the saturating fixed-point quotient of two numerators,
/// truncating toward zero.
pub open spec fn div_numer(a: int, b: int) -> int {
    let ma = if a >= 0 {
        a
    } else {
        -a
    };
    let mb = if b >= 0 {
        b
    } else {
        -b
    };
    let m = ma * FIXED_SCALE / mb;
    sat64(
        if (a < 0) != (b < 0) {
            -m
        } else {
            m
        },
    )
}

/// The magnitude of `a` as an unsigned value.
pub(crate) fn mag(a: i64) -> (m: u64)
    ensures
        m == (if a >= 0 { a as int } else { -(a as int) }),
{
    if a >= 0 {
        a as u64
    } else {
        (-(a as i128)) as u64
    }
}

/// Clamps a non-negative magnitude to `i64::MAX`.
fn clamp_pos(m: u128) -> (r: i64)
    ensures
        r as int == sat64(m as int),
{
    if m > i64::MAX as u128 {
        i64::MAX
    } else {
        m as i64
    }
}

/// Clamps the negation of a magnitude to `i64::MIN`.
fn clamp_neg(m: u128) -> (r: i64)
    ensures
        r as int == sat64(-(m as int)),
{
    if m >= 9_223_372_036_854_775_808u128 {
        i64::MIN
    } else {
        -(m as i64)
    }
}

impl Default for Fixed {
    /// The zero scalar.
    fn default() -> (r: Self)
        ensures
            r.numer == 0,
    {
        Fixed { numer: 0 }
    }
}

impl Fixed {
    /// The scalar 0.
    pub fn zero() -> (r: Fixed)
        ensures
            r.numer == 0,
    {
        Fixed { numer: 0 }
    }

    /// The scalar 1.
    pub fn one() -> (r: Fixed)
        ensures
            r.numer == FIXED_SCALE,
    {
        Fixed { numer: FIXED_SCALE }
    }

    /// Saturating addition.
    pub fn add(self, other: Fixed) -> (r: Fixed)
        ensures
            r.numer as int == sat64(self.numer + other.numer),
    {
        let wide: i128 = self.numer as i128 + other.numer as i128;
        if wide > i64::MAX as i128 {
            Fixed { numer: i64::MAX }
        } else if wide < i64::MIN as i128 {
            Fixed { numer: i64::MIN }
        } else {
            Fixed { numer: wide as i64 }
        }
    }

    /// Saturating absolute value.
    pub fn abs_sat(self) -> (r: Fixed)
        ensures
            r.numer as int == sat64(if self.numer >= 0 { self.numer as int } else { -(self.numer as int) }),
    {
        let m = mag(self.numer);
        Fixed { numer: clamp_pos(m as u128) }
    }

    /// Saturating fixed-point multiplication, truncating toward zero.
    pub fn mul(self, other: Fixed) -> (r: Fixed)
        ensures
            r.numer as int == mul_numer(self.numer as int, other.numer as int),
    {
        let ma = mag(self.numer) as u128;
        let mb = mag(other.numer) as u128;
        proof {
            assert(ma * mb <= 0xFFFF_FFFF_FFFF_FFFFu128 * 0xFFFF_FFFF_FFFF_FFFFu128)
                by (nonlinear_arith)
                requires
                    ma <= 0xFFFF_FFFF_FFFF_FFFFu128,
                    mb <= 0xFFFF_FFFF_FFFF_FFFFu128,
            ;
        }
        let q = (ma * mb) / (FIXED_SCALE as u128);
        let negative = (self.numer < 0) != (other.numer < 0);
        proof {
            lemma_mul_mag(self.numer as int, other.numer as int);
        }
        if negative {
            Fixed { numer: clamp_neg(q) }
        } else {
            Fixed { numer: clamp_pos(q) }
        }
    }

    /// Saturating fixed-point division, truncating toward zero.
    pub fn div(self, other: Fixed) -> (r: Fixed)
        requires
            other.numer != 0,
        ensures
            r.numer as int == div_numer(self.numer as int, other.numer as int),
    {
        let ma = mag(self.numer) as u128;
        let mb = mag(other.numer) as u128;
        proof {
            assert(ma * (FIXED_SCALE as u128) <= 0xFFFF_FFFF_FFFF_FFFFu128 * 1_000_000_000u128)
                by (nonlinear_arith)
                requires
                    ma <= 0xFFFF_FFFF_FFFF_FFFFu128,
            ;
        }
        let q = (ma * (FIXED_SCALE as u128)) / mb;
        let negative = (self.numer < 0) != (other.numer < 0);
        if negative {
            Fixed { numer: clamp_neg(q) }
        } else {
            Fixed { numer: clamp_pos(q) }
        }
    }

    /// Euclidean remainder by one whole unit: the result numerator lies in
    /// `[0, FIXED_SCALE)`, also for negative inputs.
    pub fn rem_one(self) -> (r: Fixed)
        ensures
            r.numer as int == (self.numer as int) % (FIXED_SCALE as int),
            0 <= r.numer < FIXED_SCALE,
    {
        let m = mag(self.numer) % (FIXED_SCALE as u64);
        if self.numer >= 0 {
            Fixed { numer: m as i64 }
        } else if m == 0 {
            proof {
                lemma_neg_mod(self.numer as int);
            }
            Fixed { numer: 0 }
        } else {
            proof {
                lemma_neg_mod(self.numer as int);
            }
            Fixed { numer: FIXED_SCALE - m as i64 }
        }
    }
}

/// Truncating division is monotone in the dividend.
pub proof fn lemma_tdiv_monotone(a: int, b: int, d: int)
    requires
        a <= b,
        0 < d,
    ensures
        tdiv(a, d) <= tdiv(b, d),
{
    if 0 <= a {
        vstd::arithmetic::div_mod::lemma_div_is_ordered(a, b, d);
    } else if b < 0 {
        vstd::arithmetic::div_mod::lemma_div_is_ordered(-b, -a, d);
    } else {
        vstd::arithmetic::div_mod::lemma_div_pos_is_pos(-a, d);
        vstd::arithmetic::div_mod::lemma_div_pos_is_pos(b, d);
    }
}

/// A quotient is below `y` exactly when the dividend is below `y * d`.
pub proof fn lemma_div_lt(x: int, d: int, y: int)
    requires
        0 <= x,
        0 < d,
        x < y * d,
    ensures
        x / d < y,
{
    vstd::arithmetic::div_mod::lemma_fundamental_div_mod(x, d);
    vstd::arithmetic::div_mod::lemma_mod_bound(x, d);
    vstd::arithmetic::div_mod::lemma_div_pos_is_pos(x, d);
    let q = x / d;
    if q >= y {
        vstd::arithmetic::mul::lemma_mul_inequality(y, q, d);
        assert(y * d <= q * d);
        assert(q * d == d * q) by (nonlinear_arith);
        assert(false);
    }
}

/// Relates the magnitude form of a product to its signed truncating division.
proof fn lemma_mul_mag(a: int, b: int)
    ensures
        a >= 0 && b >= 0 ==> tdiv(a * b, FIXED_SCALE as int) == (a * b) / (FIXED_SCALE as int),
        a < 0 && b < 0 ==> tdiv(a * b, FIXED_SCALE as int) == ((-a) * (-b)) / (FIXED_SCALE as int),
        a < 0 && b >= 0 ==> tdiv(a * b, FIXED_SCALE as int) == -(((-a) * b) / (FIXED_SCALE as int)),
        a >= 0 && b < 0 ==> tdiv(a * b, FIXED_SCALE as int) == -((a * (-b)) / (FIXED_SCALE as int)),
{
    assert((-a) * (-b) == a * b) by (nonlinear_arith);
    assert((-a) * b == -(a * b)) by (nonlinear_arith);
    assert(a * (-b) == -(a * b)) by (nonlinear_arith);
    assert(a >= 0 && b >= 0 ==> a * b >= 0) by (nonlinear_arith);
    assert(a < 0 && b < 0 ==> a * b >= 0) by (nonlinear_arith);
    assert(a < 0 && b >= 0 ==> a * b <= 0) by (nonlinear_arith);
    assert(a >= 0 && b < 0 ==> a * b <= 0) by (nonlinear_arith);
}

/// The Euclidean remainder of a negative value by [`FIXED_SCALE`], written
/// over the remainder of its magnitude.
proof fn lemma_neg_mod(n: int)
    requires
        n < 0,
    ensures
        (-n) % (FIXED_SCALE as int) == 0 ==> n % (FIXED_SCALE as int) == 0,
        (-n) % (FIXED_SCALE as int) != 0 ==> n % (FIXED_SCALE as int) == FIXED_SCALE - (-n) % (
        FIXED_SCALE as int),
{
    let s = FIXED_SCALE as int;
    let q = (-n) / s;
    let m = (-n) % s;
    vstd::arithmetic::div_mod::lemma_fundamental_div_mod(-n, s);
    assert(-n == q * s + m);
    if m == 0 {
        assert(n == (-q) * s + 0) by (nonlinear_arith)
            requires
                n == -(q * s),
        ;
        vstd::arithmetic::div_mod::lemma_fundamental_div_mod_converse(n, s, -q, 0);
    } else {
        assert(n == (-q - 1) * s + (s - m)) by (nonlinear_arith)
            requires
                n == -(q * s + m),
        ;
        vstd::arithmetic::div_mod::lemma_fundamental_div_mod_converse(n, s, -q - 1, s - m);
    }
}

} // verus!
