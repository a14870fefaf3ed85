//! Q16.16 fixed-point arithmetic: the number `1.0` is `SCALE` units.
//!
//! Every operation here is a total function on integers, so geometry
//! normalization and transform evaluation can be specified exactly.

use vstd::prelude::*;
use vstd::arithmetic::div_mod::{
    lemma_div_is_ordered, lemma_div_multiples_vanish, lemma_mod_multiples_vanish,
};

verus! {

/// Number of fixed-point units in 1.0 (Q16.16).
pub const SCALE: i64 = 65536;

/// Round-toward-zero division by a positive divisor, as Rust's `/` computes it
/// on signed integers.
pub open spec fn tdiv(a: int, b: int) -> int {
    if a >= 0 {
        a / b
    } else {
        -((-a) / b)
    }
}

/// Fixed-point product: `a * b` rescaled back to Q16.16.
pub open spec fn spec_fp_mul(a: int, b: int) -> int {
    tdiv(a * b, SCALE as int)
}

/// The normalized-device-space coordinate of pixel coordinate `x` on a
/// surface extent of `extent` pixels: `x` divided by half the extent,
/// in Q16.16 units.
pub open spec fn spec_normalize(x: int, extent: int) -> int {
    tdiv(2 * x * (SCALE as int), extent)
}

/// A fixed-point value (already carrying the Q16.16 factor) divided by half
/// the surface extent; used for translations expressed in fixed-point pixels.
pub open spec fn spec_normalize_fp(x: int, extent: int) -> int {
    tdiv(2 * x, extent)
}

pub fn fp_mul(a: i64, b: i64) -> (r: i64)
    requires
        -0x4000_0000_0000_0000 <= a * b <= 0x4000_0000_0000_0000,
    ensures
        r == spec_fp_mul(a as int, b as int),
{
    let p: i128 = (a as i128) * (b as i128);
    if p >= 0 {
        (p / 65536) as i64
    } else {
        proof {
            lemma_div_is_ordered(-p as int, 0x4000_0000_0000_0000, 65536);
        }
        -((-p / 65536) as i64)
    }
}

pub fn normalize_coord(x: i64, extent: u32) -> (r: i64)
    requires
        1 <= extent,
        -0x100_0000_0000 <= x <= 0x100_0000_0000,
    ensures
        r == spec_normalize(x as int, extent as int),
{
    let e = extent as i64;
    if x >= 0 {
        (2 * x * SCALE) / e
    } else {
        -((2 * (-x) * SCALE) / e)
    }
}

pub fn normalize_fp(x: i64, extent: u32) -> (r: i64)
    requires
        1 <= extent,
        -0x2000_0000_0000_0000 <= x <= 0x2000_0000_0000_0000,
    ensures
        r == spec_normalize_fp(x as int, extent as int),
{
    let e = extent as i64;
    if x >= 0 {
        (2 * x) / e
    } else {
        -((2 * (-x)) / e)
    }
}

/// Drop the Q16.16 factor from a fixed-point value, rounding toward zero.
pub fn fp_trunc(a: i64) -> (r: i64)
    requires
        -0x4000_0000_0000_0000 <= a <= 0x4000_0000_0000_0000,
    ensures
        r == tdiv(a as int, SCALE as int),
{
    if a >= 0 {
        a / SCALE
    } else {
        -((-a) / SCALE)
    }
}

/// Truncating division by a positive divisor shrinks a bound on the dividend
/// that is a multiple of the divisor.
pub proof fn lemma_tdiv_bound(a: int, b: int, m: int)
    requires
        0 < b,
        0 <= m,
        -(m * b) <= a <= m * b,
    ensures
        -m <= tdiv(a, b) <= m,
{
    if a >= 0 {
        lemma_div_is_ordered(a, m * b, b);
        lemma_div_multiples_vanish(m, b);
        assert((b * m) / b == m);
        assert(b * m == m * b) by (nonlinear_arith);
        lemma_div_is_ordered(0, a, b);
    } else {
        lemma_div_is_ordered(-a, m * b, b);
        lemma_div_multiples_vanish(m, b);
        assert((b * m) / b == m);
        assert(b * m == m * b) by (nonlinear_arith);
        lemma_div_is_ordered(0, -a, b);
    }
}

/// A pixel coordinate at exactly half the surface extent normalizes to
/// exactly 1.0; the normalization maps the surface edge onto the edge of
/// normalized device space.
pub proof fn lemma_normalize_half_extent(x: int, extent: int)
    requires
        1 <= extent,
        2 * x == extent,
    ensures
        spec_normalize(x, extent) == SCALE as int,
{
    assert(2 * x * (SCALE as int) == extent * (SCALE as int));
    lemma_div_multiples_vanish(SCALE as int, extent);
    assert((extent * (SCALE as int)) / extent == SCALE as int);
}

/// The sine of `d` degrees for `d` in `[0, 180]`, in Q16.16 units, computed
/// by the classical rational approximation `4d(180-d) / (40500 - d(180-d))`.
pub open spec fn spec_sin_half(d: int) -> int {
    (4 * d * (180 - d) * (SCALE as int)) / (40500 - d * (180 - d))
}

/// The sine of `d` degrees for any integer `d`, in Q16.16 units: the angle is
/// reduced to `[0, 360)` and the second half of the turn is the negated first.
pub open spec fn spec_sin_deg(d: int) -> int {
    let e = d % 360;
    if e <= 180 {
        spec_sin_half(e)
    } else {
        -spec_sin_half(e - 180)
    }
}

/// The cosine of `d` degrees, in Q16.16 units.
pub open spec fn spec_cos_deg(d: int) -> int {
    spec_sin_deg(d + 90)
}

proof fn lemma_sin_half_bounds(d: int)
    requires
        0 <= d <= 180,
    ensures
        0 <= spec_sin_half(d) <= SCALE as int,
{
    let q = d * (180 - d);
    assert(0 <= q <= 8100) by (nonlinear_arith)
        requires 0 <= d <= 180, q == d * (180 - d);
    let num = 4 * d * (180 - d) * (SCALE as int);
    assert(num == 4 * q * (SCALE as int)) by (nonlinear_arith)
        requires q == d * (180 - d), num == 4 * d * (180 - d) * (SCALE as int);
    let den = 40500 - q;
    assert(den >= 32400);
    assert(num >= 0);
    assert(num <= den * (SCALE as int)) by (nonlinear_arith)
        requires num == 4 * q * (SCALE as int), 0 <= q <= 8100, den == 40500 - q;
    lemma_div_is_ordered(num, den * (SCALE as int), den);
    lemma_div_multiples_vanish(SCALE as int, den);
    lemma_div_is_ordered(0, num, den);
}

/// Sine of `e` degrees for `e` in the first half turn, in Q16.16 units.
fn sin_half_fp(e: i64) -> (r: i64)
    requires
        0 <= e <= 180,
    ensures
        r == spec_sin_half(e as int),
        0 <= r <= SCALE as int,
{
    proof {
        assert(0 <= e * (180 - e) <= 8100) by (nonlinear_arith)
            requires 0 <= e <= 180;
    }
    let q: i64 = e * (180 - e);
    let num: i64 = 4 * q * SCALE;
    let den: i64 = 40500 - q;
    proof {
        lemma_sin_half_bounds(e as int);
        assert(num == 4 * (e as int) * (180 - (e as int)) * (SCALE as int)) by (nonlinear_arith)
            requires q == e * (180 - e), num == 4 * q * (SCALE as int);
    }
    num / den
}

/// Sine of `deg` degrees in Q16.16 units, for any angle that fits well inside
/// an `i64`; the result is always within `[-1.0, 1.0]`.
fn sin_fp_wide(deg: i64) -> (r: i64)
    requires
        -0x8000_0000_0000 <= deg <= 0x8000_0000_0000,
    ensures
        r == spec_sin_deg(deg as int),
        -(SCALE as int) <= r <= SCALE as int,
{
    let shifted: i64 = deg + 360 * 400_000_000_000;
    proof {
        lemma_mod_multiples_vanish(400_000_000_000, deg as int, 360);
    }
    let e: i64 = shifted % 360;
    assert(e == deg as int % 360);
    assert(0 <= e < 360);
    if e <= 180 {
        sin_half_fp(e)
    } else {
        let r = sin_half_fp(e - 180);
        -r
    }
}

/// Sine of `deg` degrees in Q16.16 units.
pub fn sin_fp(deg: i32) -> (r: i64)
    ensures
        r == spec_sin_deg(deg as int),
        -(SCALE as int) <= r <= SCALE as int,
{
    sin_fp_wide(deg as i64)
}

/// Cosine of `deg` degrees in Q16.16 units.
pub fn cos_fp(deg: i32) -> (r: i64)
    ensures
        r == spec_cos_deg(deg as int),
        -(SCALE as int) <= r <= SCALE as int,
{
    sin_fp_wide(deg as i64 + 90)
}

} // verus!
