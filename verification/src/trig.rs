//! Degree conversion and the tangent needed to size the camera viewport.
//!
//! Sine and cosine are Taylor polynomials evaluated in fixed point over
//! `[0, 1.048]` radians — the half-angle of any supported field of view.
//! The contracts state the exact polynomial computed; a positive lower
//! bound on the cosine makes the tangent's division safe and bounds the
//! tangent itself.

use vstd::prelude::*;
use crate::fixed::{Fixed, SCALE, absi, tdiv, fmul, fdiv, lemma_abs_mul_le, lemma_tdiv_le,
    tdiv128};

verus! {

/// Pi at the fixed-point scale.
pub const PI_FIXED: i64 = 3_141_592_654;

/// Degrees to radians: `deg * pi / 180`, rounded once.
pub open spec fn deg_to_rad_spec(deg: int) -> int {
    tdiv(deg * (PI_FIXED as int), 180 * (SCALE as int))
}

/// The sine Taylor polynomial through the eleventh power.
pub open spec fn sin_taylor_spec(x: int) -> int {
    let x2 = fmul(x, x);
    let x3 = fmul(x2, x);
    let x5 = fmul(x3, x2);
    let x7 = fmul(x5, x2);
    let x9 = fmul(x7, x2);
    let x11 = fmul(x9, x2);
    x - fdiv(x3, 6_000_000_000) + fdiv(x5, 120_000_000_000) - fdiv(x7, 5_040_000_000_000) + fdiv(
        x9,
        362_880_000_000_000,
    ) - fdiv(x11, 39_916_800_000_000_000)
}

/// The cosine Taylor polynomial through the tenth power.
pub open spec fn cos_taylor_spec(x: int) -> int {
    let x2 = fmul(x, x);
    let x4 = fmul(x2, x2);
    let x6 = fmul(x4, x2);
    let x8 = fmul(x6, x2);
    let x10 = fmul(x8, x2);
    (SCALE as int) - fdiv(x2, 2_000_000_000) + fdiv(x4, 24_000_000_000) - fdiv(
        x6,
        720_000_000_000,
    ) + fdiv(x8, 40_320_000_000_000) - fdiv(x10, 3_628_800_000_000_000)
}

/// The tangent as the ratio of the two polynomials.
pub open spec fn tan_spec(x: int) -> int {
    fdiv(sin_taylor_spec(x), cos_taylor_spec(x))
}

/// Degrees to radians.
pub fn deg_to_rad(deg: Fixed) -> (r: Fixed)
    ensures
        r.v == deg_to_rad_spec(deg.v as int),
        absi(r.v as int) <= absi(deg.v as int),
{
    proof {
        lemma_abs_mul_le(deg.v as int, PI_FIXED as int, absi(deg.v as int), PI_FIXED as int);
        lemma_tdiv_le(deg.v * (PI_FIXED as int), 180 * (SCALE as int), absi(deg.v as int));
    }
    let n: i128 = (deg.v as i128) * (PI_FIXED as i128);
    let q: i128 = tdiv128(n, 180_000_000_000);
    Fixed { v: q as i64 }
}

/// The sine polynomial over `[0, 1.048]`.
pub fn sin_taylor(x: Fixed) -> (r: Fixed)
    requires
        0 <= x.v <= 1_048_000_000,
    ensures
        r.v == sin_taylor_spec(x.v as int),
        absi(r.v as int) <= 1_251_000_000,
{
    proof {
        lemma_abs_mul_le(x.v as int, x.v as int, 1_048_000_000, 1_048_000_000);
        lemma_tdiv_le(x.v * x.v, SCALE as int, 1_098_304_000);
        assert(x.v * x.v >= 0) by (nonlinear_arith);
    }
    let x2: Fixed = x.mul(x);
    proof {
        lemma_abs_mul_le(x2.v as int, x.v as int, 1_098_304_000, 1_048_000_000);
        lemma_tdiv_le(x2.v * x.v, SCALE as int, 1_152_000_000);
    }
    let x3: Fixed = x2.mul(x);
    proof {
        lemma_abs_mul_le(x3.v as int, x2.v as int, 1_152_000_000, 1_098_304_000);
        lemma_tdiv_le(x3.v * x2.v, SCALE as int, 1_266_000_000);
    }
    let x5: Fixed = x3.mul(x2);
    proof {
        lemma_abs_mul_le(x5.v as int, x2.v as int, 1_266_000_000, 1_098_304_000);
        lemma_tdiv_le(x5.v * x2.v, SCALE as int, 1_391_000_000);
    }
    let x7: Fixed = x5.mul(x2);
    proof {
        lemma_abs_mul_le(x7.v as int, x2.v as int, 1_391_000_000, 1_098_304_000);
        lemma_tdiv_le(x7.v * x2.v, SCALE as int, 1_528_000_000);
    }
    let x9: Fixed = x7.mul(x2);
    proof {
        lemma_abs_mul_le(x9.v as int, x2.v as int, 1_528_000_000, 1_098_304_000);
        lemma_tdiv_le(x9.v * x2.v, SCALE as int, 1_679_000_000);
    }
    let x11: Fixed = x9.mul(x2);
    let t3: Fixed = x3.div(Fixed { v: 6_000_000_000 });
    let t5: Fixed = x5.div(Fixed { v: 120_000_000_000 });
    let t7: Fixed = x7.div(Fixed { v: 5_040_000_000_000 });
    let t9: Fixed = x9.div(Fixed { v: 362_880_000_000_000 });
    let t11: Fixed = x11.div(Fixed { v: 39_916_800_000_000_000 });
    proof {
        lemma_tdiv_le(x3.v * (SCALE as int), 6_000_000_000, 192_000_000);
        lemma_tdiv_le(x5.v * (SCALE as int), 120_000_000_000, 10_550_000);
        lemma_tdiv_le(x7.v * (SCALE as int), 5_040_000_000_000, 276_000);
        lemma_tdiv_le(x9.v * (SCALE as int), 362_880_000_000_000, 4_300);
        lemma_tdiv_le(x11.v * (SCALE as int), 39_916_800_000_000_000, 43);
    }
    x.sub(t3).add(t5).sub(t7).add(t9).sub(t11)
}

/// The cosine polynomial over `[0, 1.048]`, bounded away from zero.
pub fn cos_taylor(x: Fixed) -> (r: Fixed)
    requires
        0 <= x.v <= 1_048_000_000,
    ensures
        r.v == cos_taylor_spec(x.v as int),
        449_000_000 <= r.v <= 1_051_000_000,
{
    proof {
        lemma_abs_mul_le(x.v as int, x.v as int, 1_048_000_000, 1_048_000_000);
        lemma_tdiv_le(x.v * x.v, SCALE as int, 1_098_304_000);
        assert(x.v * x.v >= 0) by (nonlinear_arith);
    }
    let x2: Fixed = x.mul(x);
    proof {
        lemma_abs_mul_le(x2.v as int, x2.v as int, 1_098_304_000, 1_098_304_000);
        lemma_tdiv_le(x2.v * x2.v, SCALE as int, 1_207_000_000);
        assert(x2.v * x2.v >= 0) by (nonlinear_arith)
            requires
                x2.v >= 0,
        ;
    }
    let x4: Fixed = x2.mul(x2);
    proof {
        lemma_abs_mul_le(x4.v as int, x2.v as int, 1_207_000_000, 1_098_304_000);
        lemma_tdiv_le(x4.v * x2.v, SCALE as int, 1_326_000_000);
        assert(x4.v * x2.v >= 0) by (nonlinear_arith)
            requires
                x4.v >= 0,
                x2.v >= 0,
        ;
    }
    let x6: Fixed = x4.mul(x2);
    proof {
        lemma_abs_mul_le(x6.v as int, x2.v as int, 1_326_000_000, 1_098_304_000);
        lemma_tdiv_le(x6.v * x2.v, SCALE as int, 1_457_000_000);
        assert(x6.v * x2.v >= 0) by (nonlinear_arith)
            requires
                x6.v >= 0,
                x2.v >= 0,
        ;
    }
    let x8: Fixed = x6.mul(x2);
    proof {
        lemma_abs_mul_le(x8.v as int, x2.v as int, 1_457_000_000, 1_098_304_000);
        lemma_tdiv_le(x8.v * x2.v, SCALE as int, 1_601_000_000);
        assert(x8.v * x2.v >= 0) by (nonlinear_arith)
            requires
                x8.v >= 0,
                x2.v >= 0,
        ;
    }
    let x10: Fixed = x8.mul(x2);
    let t2: Fixed = x2.div(Fixed { v: 2_000_000_000 });
    let t4: Fixed = x4.div(Fixed { v: 24_000_000_000 });
    let t6: Fixed = x6.div(Fixed { v: 720_000_000_000 });
    let t8: Fixed = x8.div(Fixed { v: 40_320_000_000_000 });
    let t10: Fixed = x10.div(Fixed { v: 3_628_800_000_000_000 });
    proof {
        lemma_tdiv_le(x2.v * (SCALE as int), 2_000_000_000, 549_152_000);
        lemma_tdiv_le(x4.v * (SCALE as int), 24_000_000_000, 50_300_000);
        lemma_tdiv_le(x6.v * (SCALE as int), 720_000_000_000, 1_842_000);
        lemma_tdiv_le(x8.v * (SCALE as int), 40_320_000_000_000, 36_200);
        lemma_tdiv_le(x10.v * (SCALE as int), 3_628_800_000_000_000, 442);
        assert(x4.v * (SCALE as int) >= 0) by (nonlinear_arith)
            requires
                x4.v >= 0,
        ;
        assert(x8.v * (SCALE as int) >= 0) by (nonlinear_arith)
            requires
                x8.v >= 0,
        ;
    }
    Fixed { v: SCALE }.sub(t2).add(t4).sub(t6).add(t8).sub(t10)
}

/// The tangent over `[0, 1.048]`.
pub fn tan_fixed(x: Fixed) -> (r: Fixed)
    requires
        0 <= x.v <= 1_048_000_000,
    ensures
        r.v == tan_spec(x.v as int),
        absi(r.v as int) <= 2_790_000_000,
{
    let s: Fixed = sin_taylor(x);
    let c: Fixed = cos_taylor(x);
    proof {
        lemma_abs_mul_le(s.v as int, SCALE as int, 1_251_000_000, 1_000_000_000);
        lemma_tdiv_le(s.v * (SCALE as int), c.v as int, 2_790_000_000);
    }
    s.div(c)
}

} // verus!
