//! Colors and materials, and the sRGB-to-linear transfer function.
//!
//! A color channel is an sRGB byte value in `0..=255`; alpha is a Q16.16
//! fraction in `[0, 1]`. The transfer `((c/255 + 0.055)/1.055)^2.4` is
//! evaluated entirely in Q16.16 arithmetic: the exponent `2.4 = 12/5` is
//! computed as `t^2 * (t^2)^(1/5)` with an exact integer fifth root.

use vstd::prelude::*;
use vstd::arithmetic::div_mod::{lemma_div_is_ordered, lemma_div_multiples_vanish};
use crate::fixed::SCALE;

verus! {

/// The fifth power of an integer.
pub open spec fn pow5(w: int) -> int {
    w * w * w * w * w
}

/// `SCALE` to the fourth power.
pub open spec fn scale4() -> int {
    (SCALE as int) * (SCALE as int) * (SCALE as int) * (SCALE as int)
}

/// `w` is the integer fifth root, in Q16.16 units, of the Q16.16 fraction `u`.
pub open spec fn is_root5(u: int, w: int) -> bool {
    &&& 0 <= w <= SCALE as int
    &&& pow5(w) <= u * scale4()
    &&& u * scale4() < pow5(w + 1)
}

/// The integer fifth root of a Q16.16 fraction, in Q16.16 units.
pub open spec fn spec_root5(u: int) -> int {
    choose|w: int| is_root5(u, w)
}

proof fn lemma_pow5_strictly_increases(a: int, b: int)
    requires
        0 <= a < b,
    ensures
        pow5(a) < pow5(b),
{
    let a2 = a * a;
    let b2 = b * b;
    assert(0 <= a2 < b2) by (nonlinear_arith)
        requires 0 <= a < b, a2 == a * a, b2 == b * b;
    let a4 = a2 * a2;
    let b4 = b2 * b2;
    assert(0 <= a4 < b4) by (nonlinear_arith)
        requires 0 <= a2 < b2, a4 == a2 * a2, b4 == b2 * b2;
    assert(a4 * a < b4 * b) by (nonlinear_arith)
        requires 0 <= a4 < b4, 0 <= a < b;
    assert(pow5(a) == a4 * a) by (nonlinear_arith)
        requires a2 == a * a, a4 == a2 * a2;
    assert(pow5(b) == b4 * b) by (nonlinear_arith)
        requires b2 == b * b, b4 == b2 * b2;
}

proof fn lemma_root5_unique(u: int, w1: int, w2: int)
    requires
        is_root5(u, w1),
        is_root5(u, w2),
    ensures
        w1 == w2,
{
    if w1 < w2 {
        if w1 + 1 < w2 {
            lemma_pow5_strictly_increases(w1 + 1, w2);
        }
        assert(pow5(w1 + 1) <= pow5(w2));
    }
    if w2 < w1 {
        if w2 + 1 < w1 {
            lemma_pow5_strictly_increases(w2 + 1, w1);
        }
        assert(pow5(w2 + 1) <= pow5(w1));
    }
}

fn pow5_u128(w: u64) -> (r: u128)
    requires
        w <= 0x2_0000,
    ensures
        r == pow5(w as int),
{
    proof {
        assert(w * w <= 0x2_0000 * 0x2_0000) by (nonlinear_arith)
            requires w <= 0x2_0000;
    }
    let p2: u128 = (w as u128) * (w as u128);
    proof {
        assert(p2 * p2 <= 0x4_0000_0000 * 0x4_0000_0000) by (nonlinear_arith)
            requires p2 <= 0x4_0000_0000;
    }
    let p4: u128 = p2 * p2;
    proof {
        assert(p4 * w <= 0x10_0000_0000_0000_0000 * 0x2_0000) by (nonlinear_arith)
            requires p4 <= 0x10_0000_0000_0000_0000, w <= 0x2_0000;
        assert(p4 * (w as int) == pow5(w as int)) by (nonlinear_arith)
            requires p2 == w * w, p4 == p2 * p2;
    }
    p4 * (w as u128)
}

/// Integer fifth root of the Q16.16 fraction `u`, in Q16.16 units,
/// by binary search over the monotone fifth power.
fn root5_fp(u: i64) -> (w: i64)
    requires
        0 <= u <= SCALE,
    ensures
        is_root5(u as int, w as int),
        w == spec_root5(u as int),
{
    let target: u128 = (u as u128) * 0x1_0000_0000_0000_0000;
    proof {
        assert(u * scale4() == target) by (nonlinear_arith)
            requires 0 <= u, target == u * 0x1_0000_0000_0000_0000;
        assert(pow5(0x1_0001int) > 0x1_0000 * 0x1_0000_0000_0000_0000);
    }
    let mut lo: u64 = 0;
    let mut hi: u64 = 65536;
    while lo < hi
        invariant
            lo <= hi <= 65536,
            pow5(lo as int) <= target as int,
            (target as int) < pow5(hi as int + 1),
            0 <= u <= SCALE,
            target == u * scale4(),
        decreases hi - lo,
    {
        let mid: u64 = lo + (hi - lo + 1) / 2;
        assert(lo < mid <= hi);
        if pow5_u128(mid) <= target {
            lo = mid;
        } else {
            hi = mid - 1;
        }
    }
    proof {
        assert(is_root5(u as int, lo as int));
        lemma_root5_unique(u as int, lo as int, spec_root5(u as int));
    }
    lo as i64
}

/// The Q16.16 value of `(c/255 + 0.055)/1.055` for a channel byte `c`;
/// `3604` and `69140` are `0.055` and `1.055` in Q16.16 units.
pub open spec fn spec_srgb_t(c: int) -> int {
    ((c * (SCALE as int)) / 255 + 3604) * (SCALE as int) / 69140
}

/// The linear intensity of an sRGB channel byte, in Q16.16 units:
/// `t^2.4` computed as `t^2 * (t^2)^(1/5)`.
pub open spec fn spec_srgb_linear(c: int) -> int {
    let t = spec_srgb_t(c);
    let t2 = (t * t) / (SCALE as int);
    (t2 * spec_root5(t2)) / (SCALE as int)
}

/// Linear intensity of an sRGB channel byte, in Q16.16 units.
pub fn srgb_linear_fp(c: i16) -> (r: i64)
    requires
        0 <= c <= 255,
    ensures
        r == spec_srgb_linear(c as int),
        0 <= r <= SCALE as int,
{
    let base: i64 = ((c as i64) * SCALE) / 255;
    proof {
        lemma_div_is_ordered(c as int * (SCALE as int), 255 * (SCALE as int), 255);
        lemma_div_multiples_vanish(SCALE as int, 255);
        lemma_div_is_ordered(0, c as int * (SCALE as int), 255);
    }
    assert(0 <= base <= SCALE);
    let t: i64 = ((base + 3604) * SCALE) / 69140;
    proof {
        lemma_div_is_ordered((base as int + 3604) * (SCALE as int), 69140 * (SCALE as int), 69140);
        lemma_div_multiples_vanish(SCALE as int, 69140);
        lemma_div_is_ordered(0, (base as int + 3604) * (SCALE as int), 69140);
    }
    assert(0 <= t <= SCALE);
    proof {
        assert(t * t <= SCALE * SCALE) by (nonlinear_arith)
            requires 0 <= t <= SCALE;
        assert(t * t >= 0) by (nonlinear_arith)
            requires 0 <= t;
    }
    let t2: i64 = (t * t) / SCALE;
    proof {
        lemma_div_is_ordered(t as int * t as int, (SCALE as int) * (SCALE as int), SCALE as int);
        lemma_div_multiples_vanish(SCALE as int, SCALE as int);
        lemma_div_is_ordered(0, t as int * t as int, SCALE as int);
    }
    assert(0 <= t2 <= SCALE);
    let w = root5_fp(t2);
    proof {
        assert(t2 * w <= SCALE * SCALE) by (nonlinear_arith)
            requires 0 <= t2 <= SCALE, 0 <= w <= SCALE;
        assert(t2 * w >= 0) by (nonlinear_arith)
            requires 0 <= t2, 0 <= w;
        lemma_div_is_ordered(t2 as int * w as int, (SCALE as int) * (SCALE as int), SCALE as int);
        lemma_div_is_ordered(0, t2 as int * w as int, SCALE as int);
    }
    (t2 * w) / SCALE
}

/// An sRGB color: byte channels in `0..=255` and a Q16.16 alpha in `[0, 1]`.
#[derive(Clone, Copy, Debug, PartialEq, Eq, Structural)]
pub struct StrayColor {
    pub r: i16,
    pub g: i16,
    pub b: i16,
    pub a: i64,
}

impl StrayColor {
    /// Channels within their documented ranges.
    pub open spec fn wf(self) -> bool {
        &&& 0 <= self.r <= 255
        &&& 0 <= self.g <= 255
        &&& 0 <= self.b <= 255
        &&& 0 <= self.a <= SCALE as int
    }

    /// Runtime check of `wf`, for callers outside the verified library.
    pub fn is_wf(&self) -> (r: bool)
        ensures
            r == self.wf(),
    {
        0 <= self.r && self.r <= 255 && 0 <= self.g && self.g <= 255 && 0 <= self.b
            && self.b <= 255 && 0 <= self.a && self.a <= SCALE
    }

    pub fn new(r: i16, g: i16, b: i16, a: i64) -> (c: StrayColor)
        requires
            0 <= r <= 255,
            0 <= g <= 255,
            0 <= b <= 255,
            0 <= a <= SCALE as int,
        ensures
            c == (StrayColor { r, g, b, a }),
            c.wf(),
    {
        StrayColor { r, g, b, a }
    }
}

impl Default for StrayColor {
    /// Fully transparent black, as the zero value of every channel.
    fn default() -> (c: StrayColor)
        ensures
            c == (StrayColor { r: 0i16, g: 0i16, b: 0i16, a: 0i64 }),
            c.wf(),
    {
        StrayColor { r: 0, g: 0, b: 0, a: 0 }
    }
}

/// The material of a drawable: its color.
#[derive(Clone, Copy, Debug, PartialEq, Eq, Structural)]
pub struct StandardMaterial {
    pub color: StrayColor,
}

impl StandardMaterial {
    pub open spec fn wf(self) -> bool {
        self.color.wf()
    }

    /// Runtime check of `wf`, for callers outside the verified library.
    pub fn is_wf(&self) -> (r: bool)
        ensures
            r == self.wf(),
    {
        self.color.is_wf()
    }

    pub fn new(color: StrayColor) -> (m: StandardMaterial)
        ensures
            m == (StandardMaterial { color }),
    {
        StandardMaterial { color }
    }
}

} // verus!
