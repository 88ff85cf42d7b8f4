//! Three-component fixed-point vectors, used as points, directions and
//! colours.
//!
//! Each operation's contract states the exact integer value of every
//! component of the result; dot and cross products are evaluated in 128-bit
//! intermediates and rounded once.

use vstd::prelude::*;
use crate::fixed::{Fixed, SCALE, absi, tdiv, fmul, fdiv, sqrt_floor};
use crate::fixed::{lemma_abs_mul_le, lemma_tdiv_le};

verus! {

/// Component bound under which dot products and norms cannot overflow:
/// fifty thousand in real terms, far beyond the scene's extent.
pub const VB: i64 = 50_000_000_000_000;

/// Tolerance under which a vector counts as degenerate (1e-8 in real
/// terms): scatter directions this small are replaced by the surface
/// normal.
pub const EPS: i64 = 10;

#[derive(Clone, Copy, PartialEq, Eq, Structural, Debug)]
pub struct Vec3 {
    pub x: Fixed,
    pub y: Fixed,
    pub z: Fixed,
}

/// Every component is at most `c` in magnitude.
pub open spec fn in_bound(a: Vec3, c: int) -> bool {
    absi(a.x.v as int) <= c && absi(a.y.v as int) <= c && absi(a.z.v as int) <= c
}

/// The single-rounding dot product.
pub open spec fn dot_spec(a: Vec3, b: Vec3) -> int {
    tdiv(a.x.v * b.x.v + a.y.v * b.y.v + a.z.v * b.z.v, SCALE as int)
}

/// All components are within the degeneracy tolerance.
pub open spec fn near_zero_spec(a: Vec3) -> bool {
    absi(a.x.v as int) < EPS && absi(a.y.v as int) < EPS && absi(a.z.v as int) < EPS
}

/// Componentwise negation.
pub open spec fn vneg_spec(a: Vec3) -> Vec3 {
    Vec3 {
        x: Fixed { v: (-a.x.v) as i64 },
        y: Fixed { v: (-a.y.v) as i64 },
        z: Fixed { v: (-a.z.v) as i64 },
    }
}

/// Componentwise sum.
pub open spec fn vadd_spec(a: Vec3, b: Vec3) -> Vec3 {
    Vec3 {
        x: Fixed { v: (a.x.v + b.x.v) as i64 },
        y: Fixed { v: (a.y.v + b.y.v) as i64 },
        z: Fixed { v: (a.z.v + b.z.v) as i64 },
    }
}

/// Componentwise difference.
pub open spec fn vsub_spec(a: Vec3, b: Vec3) -> Vec3 {
    Vec3 {
        x: Fixed { v: (a.x.v - b.x.v) as i64 },
        y: Fixed { v: (a.y.v - b.y.v) as i64 },
        z: Fixed { v: (a.z.v - b.z.v) as i64 },
    }
}

/// The vector scaled by `s`, each component rounded toward zero.
pub open spec fn vscale_spec(a: Vec3, s: int) -> Vec3 {
    Vec3 {
        x: Fixed { v: fmul(a.x.v as int, s) as i64 },
        y: Fixed { v: fmul(a.y.v as int, s) as i64 },
        z: Fixed { v: fmul(a.z.v as int, s) as i64 },
    }
}

/// Componentwise (Hadamard) product.
pub open spec fn vmul_spec(a: Vec3, b: Vec3) -> Vec3 {
    Vec3 {
        x: Fixed { v: fmul(a.x.v as int, b.x.v as int) as i64 },
        y: Fixed { v: fmul(a.y.v as int, b.y.v as int) as i64 },
        z: Fixed { v: fmul(a.z.v as int, b.z.v as int) as i64 },
    }
}

/// The smaller of two mathematical integers.
pub open spec fn mini(a: int, b: int) -> int {
    if a <= b {
        a
    } else {
        b
    }
}

/// The cross product, each component rounded once.
pub open spec fn cross_spec(a: Vec3, b: Vec3) -> Vec3 {
    Vec3 {
        x: Fixed { v: tdiv(a.y.v * b.z.v - a.z.v * b.y.v, SCALE as int) as i64 },
        y: Fixed { v: tdiv(a.z.v * b.x.v - a.x.v * b.z.v, SCALE as int) as i64 },
        z: Fixed { v: tdiv(a.x.v * b.y.v - a.y.v * b.x.v, SCALE as int) as i64 },
    }
}

/// The incident direction `uv` mirrored about the normal `n`.
pub open spec fn reflect_spec(uv: Vec3, n: Vec3) -> Vec3 {
    vsub_spec(uv, vscale_spec(n, 2 * dot_spec(uv, n)))
}

/// The refracted direction for incident unit direction `uv`, unit normal
/// `n` and refraction ratio `eta`: the perpendicular part is scaled by
/// `eta` and the parallel part restores (approximately) unit length.
pub open spec fn refract_spec(uv: Vec3, n: Vec3, eta: int) -> Vec3 {
    let cos_theta = mini(dot_spec(vneg_spec(uv), n), SCALE as int);
    let r_out_perp = vscale_spec(vadd_spec(uv, vscale_spec(n, cos_theta)), eta);
    let k = dot_spec(r_out_perp, r_out_perp);
    let r_out_parallel = vscale_spec(n, -sqrt_floor(absi((SCALE as int) - k) * (SCALE as int)));
    vadd_spec(r_out_perp, r_out_parallel)
}

/// Clamp of a mathematical integer.
pub open spec fn clampi(a: int, lo: int, hi: int) -> int {
    if a < lo {
        lo
    } else if a > hi {
        hi
    } else {
        a
    }
}

/// The norm as stored: floor square root of the rescaled squared norm.
pub open spec fn norm_spec(a: Vec3) -> int {
    sqrt_floor(dot_spec(a, a) * (SCALE as int))
}

/// The normalized vector: each component divided by the norm and clamped
/// into the unit range; the zero vector if the norm rounds to zero.
pub open spec fn normalize_spec(a: Vec3) -> Vec3 {
    let n = norm_spec(a);
    if n == 0 {
        Vec3 { x: Fixed { v: 0 }, y: Fixed { v: 0 }, z: Fixed { v: 0 } }
    } else {
        Vec3 {
            x: Fixed { v: clampi(fdiv(a.x.v as int, n), -(SCALE as int), SCALE as int) as i64 },
            y: Fixed { v: clampi(fdiv(a.y.v as int, n), -(SCALE as int), SCALE as int) as i64 },
            z: Fixed { v: clampi(fdiv(a.z.v as int, n), -(SCALE as int), SCALE as int) as i64 },
        }
    }
}

/// Decide the component bound at run time.
pub fn in_bound_check(a: &Vec3, c: i64) -> (r: bool)
    requires
        c >= 0,
    ensures
        r == in_bound(*a, c as int),
{
    -c <= a.x.v && a.x.v <= c && -c <= a.y.v && a.y.v <= c && -c <= a.z.v && a.z.v <= c
}

/// A dot product of vectors within the overflow bound is itself bounded.
pub proof fn lemma_dot_in_bound(a: Vec3, b: Vec3)
    requires
        in_bound(a, VB as int),
        in_bound(b, VB as int),
    ensures
        absi(a.x.v * b.x.v) <= (VB as int) * (VB as int),
        absi(a.y.v * b.y.v) <= (VB as int) * (VB as int),
        absi(a.z.v * b.z.v) <= (VB as int) * (VB as int),
        absi(a.x.v * b.x.v + a.y.v * b.y.v + a.z.v * b.z.v) <= 3 * (VB as int) * (VB as int),
        absi(dot_spec(a, b)) <= (VB as int) * (VB as int),
        3 * (VB as int) * (VB as int) <= (i64::MAX as int) * (SCALE as int),
{
    lemma_abs_mul_le(a.x.v as int, b.x.v as int, VB as int, VB as int);
    lemma_abs_mul_le(a.y.v as int, b.y.v as int, VB as int, VB as int);
    lemma_abs_mul_le(a.z.v as int, b.z.v as int, VB as int, VB as int);
    lemma_tdiv_le(
        a.x.v * b.x.v + a.y.v * b.y.v + a.z.v * b.z.v,
        SCALE as int,
        (VB as int) * (VB as int),
    );
}

/// A dot product of a bounded vector with itself is a sum of squares:
/// nonnegative, so the stored squared norm is nonnegative as well.
pub proof fn lemma_dot_self_nonneg(a: Vec3)
    ensures
        a.x.v * a.x.v + a.y.v * a.y.v + a.z.v * a.z.v >= 0,
        dot_spec(a, a) >= 0,
{
    assert(a.x.v * a.x.v >= 0) by (nonlinear_arith);
    assert(a.y.v * a.y.v >= 0) by (nonlinear_arith);
    assert(a.z.v * a.z.v >= 0) by (nonlinear_arith);
}

/// When the stored norm of `a` is positive, dividing any component of `a`
/// by it cannot overflow: the norm is within one unit of dominating every
/// component.
proof fn lemma_norm_supports_div(c: int, q: int, n: int)
    by (nonlinear_arith)
    requires
        n >= 1,
        q * (SCALE as int) >= c * c - (SCALE as int) + 1,
        q * (SCALE as int) < (n + 1) * (n + 1),
    ensures
        absi(c) * (SCALE as int) <= (i64::MAX as int) * n,
{
}

impl Vec3 {
    /// A vector from its components.
    pub fn new(x: Fixed, y: Fixed, z: Fixed) -> (r: Vec3)
        ensures
            r.x == x,
            r.y == y,
            r.z == z,
    {
        Vec3 { x, y, z }
    }

    /// The zero vector.
    pub fn zeros() -> (r: Vec3)
        ensures
            r.x.v == 0,
            r.y.v == 0,
            r.z.v == 0,
    {
        Vec3 { x: Fixed { v: 0 }, y: Fixed { v: 0 }, z: Fixed { v: 0 } }
    }

    /// Componentwise sum.
    pub fn add(self, o: Vec3) -> (r: Vec3)
        requires
            i64::MIN as int <= self.x.v + o.x.v <= i64::MAX as int,
            i64::MIN as int <= self.y.v + o.y.v <= i64::MAX as int,
            i64::MIN as int <= self.z.v + o.z.v <= i64::MAX as int,
        ensures
            r.x.v == self.x.v + o.x.v,
            r.y.v == self.y.v + o.y.v,
            r.z.v == self.z.v + o.z.v,
    {
        Vec3 { x: self.x.add(o.x), y: self.y.add(o.y), z: self.z.add(o.z) }
    }

    /// Componentwise difference.
    pub fn sub(self, o: Vec3) -> (r: Vec3)
        requires
            i64::MIN as int <= self.x.v - o.x.v <= i64::MAX as int,
            i64::MIN as int <= self.y.v - o.y.v <= i64::MAX as int,
            i64::MIN as int <= self.z.v - o.z.v <= i64::MAX as int,
        ensures
            r.x.v == self.x.v - o.x.v,
            r.y.v == self.y.v - o.y.v,
            r.z.v == self.z.v - o.z.v,
    {
        Vec3 { x: self.x.sub(o.x), y: self.y.sub(o.y), z: self.z.sub(o.z) }
    }

    /// Componentwise negation.
    pub fn neg(self) -> (r: Vec3)
        requires
            self.x.v > i64::MIN,
            self.y.v > i64::MIN,
            self.z.v > i64::MIN,
        ensures
            r.x.v == -self.x.v,
            r.y.v == -self.y.v,
            r.z.v == -self.z.v,
    {
        Vec3 { x: self.x.neg(), y: self.y.neg(), z: self.z.neg() }
    }

    /// The vector scaled by `s`.
    pub fn scale(self, s: Fixed) -> (r: Vec3)
        requires
            absi(self.x.v * s.v) <= (i64::MAX as int) * (SCALE as int),
            absi(self.y.v * s.v) <= (i64::MAX as int) * (SCALE as int),
            absi(self.z.v * s.v) <= (i64::MAX as int) * (SCALE as int),
        ensures
            r.x.v == fmul(self.x.v as int, s.v as int),
            r.y.v == fmul(self.y.v as int, s.v as int),
            r.z.v == fmul(self.z.v as int, s.v as int),
    {
        Vec3 { x: self.x.mul(s), y: self.y.mul(s), z: self.z.mul(s) }
    }

    /// Componentwise (Hadamard) product, the attenuation step of the
    /// radiance estimate.
    pub fn mul(self, o: Vec3) -> (r: Vec3)
        requires
            absi(self.x.v * o.x.v) <= (i64::MAX as int) * (SCALE as int),
            absi(self.y.v * o.y.v) <= (i64::MAX as int) * (SCALE as int),
            absi(self.z.v * o.z.v) <= (i64::MAX as int) * (SCALE as int),
        ensures
            r.x.v == fmul(self.x.v as int, o.x.v as int),
            r.y.v == fmul(self.y.v as int, o.y.v as int),
            r.z.v == fmul(self.z.v as int, o.z.v as int),
    {
        Vec3 { x: self.x.mul(o.x), y: self.y.mul(o.y), z: self.z.mul(o.z) }
    }

    /// Dot product, rounded once.
    pub fn dot(&self, o: &Vec3) -> (r: Fixed)
        requires
            in_bound(*self, VB as int),
            in_bound(*o, VB as int),
        ensures
            r.v == dot_spec(*self, *o),
    {
        proof {
            lemma_dot_in_bound(*self, *o);
        }
        let n: i128 = (self.x.v as i128) * (o.x.v as i128) + (self.y.v as i128) * (o.y.v as i128)
            + (self.z.v as i128) * (o.z.v as i128);
        proof {
            lemma_tdiv_le(n as int, SCALE as int, i64::MAX as int);
        }
        let q: i128 = crate::fixed::tdiv128(n, SCALE as i128);
        Fixed { v: q as i64 }
    }

    /// Squared norm.
    pub fn norm_squared(&self) -> (r: Fixed)
        requires
            in_bound(*self, VB as int),
        ensures
            r.v == dot_spec(*self, *self),
            r.v >= 0,
    {
        proof {
            lemma_dot_self_nonneg(*self);
        }
        self.dot(self)
    }

    /// Norm: floor square root of the squared norm.
    pub fn norm(&self) -> (r: Fixed)
        requires
            in_bound(*self, VB as int),
        ensures
            r.v == norm_spec(*self),
            r.v >= 0,
            r.v * r.v <= dot_spec(*self, *self) * (SCALE as int),
            dot_spec(*self, *self) * (SCALE as int) < (r.v + 1) * (r.v + 1),
    {
        let q: Fixed = self.norm_squared();
        q.sqrt()
    }

    /// The vector scaled to (clamped) unit length; the zero vector when the
    /// norm rounds to zero.
    pub fn normalize(&self) -> (r: Vec3)
        requires
            in_bound(*self, VB as int),
        ensures
            r == normalize_spec(*self),
            in_bound(r, SCALE as int),
    {
        let n: Fixed = self.norm();
        if n.v == 0 {
            Vec3::zeros()
        } else {
            proof {
                let q = dot_spec(*self, *self);
                assert(q * (SCALE as int) >= self.x.v * self.x.v - (SCALE as int) + 1
                    && q * (SCALE as int) >= self.y.v * self.y.v - (SCALE as int) + 1
                    && q * (SCALE as int) >= self.z.v * self.z.v - (SCALE as int) + 1) by {
                    lemma_dot_self_nonneg(*self);
                    let s = self.x.v * self.x.v + self.y.v * self.y.v + self.z.v * self.z.v;
                    assert(q == s / (SCALE as int));
                    assert(q * (SCALE as int) >= s - (SCALE as int) + 1) by (nonlinear_arith)
                        requires
                            q == s / (SCALE as int),
                            s >= 0,
                    ;
                    assert(self.y.v * self.y.v >= 0) by (nonlinear_arith);
                    assert(self.z.v * self.z.v >= 0) by (nonlinear_arith);
                    assert(self.x.v * self.x.v >= 0) by (nonlinear_arith);
                }
                lemma_norm_supports_div(self.x.v as int, q, n.v as int);
                lemma_norm_supports_div(self.y.v as int, q, n.v as int);
                lemma_norm_supports_div(self.z.v as int, q, n.v as int);
            }
            let one: Fixed = Fixed { v: SCALE };
            let mone: Fixed = Fixed { v: -SCALE };
            Vec3 {
                x: self.x.div(n).clamp(mone, one),
                y: self.y.div(n).clamp(mone, one),
                z: self.z.div(n).clamp(mone, one),
            }
        }
    }

    /// Whether every component is within the degeneracy tolerance.
    pub fn near_zero(&self) -> (r: bool)
        requires
            self.x.v > i64::MIN,
            self.y.v > i64::MIN,
            self.z.v > i64::MIN,
        ensures
            r == near_zero_spec(*self),
    {
        self.x.abs().v < EPS && self.y.abs().v < EPS && self.z.abs().v < EPS
    }

    /// Cross product, each component rounded once.
    pub fn cross(&self, o: &Vec3) -> (r: Vec3)
        requires
            in_bound(*self, VB as int),
            in_bound(*o, VB as int),
        ensures
            r == cross_spec(*self, *o),
            in_bound(r, 2 * (VB as int) * (VB as int) / (SCALE as int) + 1),
    {
        proof {
            lemma_abs_mul_le(self.y.v as int, o.z.v as int, VB as int, VB as int);
            lemma_abs_mul_le(self.z.v as int, o.y.v as int, VB as int, VB as int);
            lemma_abs_mul_le(self.z.v as int, o.x.v as int, VB as int, VB as int);
            lemma_abs_mul_le(self.x.v as int, o.z.v as int, VB as int, VB as int);
            lemma_abs_mul_le(self.x.v as int, o.y.v as int, VB as int, VB as int);
            lemma_abs_mul_le(self.y.v as int, o.x.v as int, VB as int, VB as int);
            lemma_tdiv_le(
                self.y.v * o.z.v - self.z.v * o.y.v,
                SCALE as int,
                2 * (VB as int) * (VB as int) / (SCALE as int) + 1,
            );
            lemma_tdiv_le(
                self.z.v * o.x.v - self.x.v * o.z.v,
                SCALE as int,
                2 * (VB as int) * (VB as int) / (SCALE as int) + 1,
            );
            lemma_tdiv_le(
                self.x.v * o.y.v - self.y.v * o.x.v,
                SCALE as int,
                2 * (VB as int) * (VB as int) / (SCALE as int) + 1,
            );
        }
        let cx: i128 = (self.y.v as i128) * (o.z.v as i128) - (self.z.v as i128) * (o.y.v as i128);
        let cy: i128 = (self.z.v as i128) * (o.x.v as i128) - (self.x.v as i128) * (o.z.v as i128);
        let cz: i128 = (self.x.v as i128) * (o.y.v as i128) - (self.y.v as i128) * (o.x.v as i128);
        Vec3 {
            x: Fixed { v: crate::fixed::tdiv128(cx, SCALE as i128) as i64 },
            y: Fixed { v: crate::fixed::tdiv128(cy, SCALE as i128) as i64 },
            z: Fixed { v: crate::fixed::tdiv128(cz, SCALE as i128) as i64 },
        }
    }

    /// The direction mirrored about the normal `n`.
    pub fn reflect(&self, n: &Vec3) -> (r: Vec3)
        requires
            in_bound(*self, 4 * (SCALE as int)),
            in_bound(*n, 4 * (SCALE as int)),
        ensures
            r == reflect_spec(*self, *n),
            in_bound(r, 400 * (SCALE as int)),
    {
        proof {
            lemma_dot_in_bound(*self, *n);
            lemma_abs_mul_le(self.x.v as int, n.x.v as int, 4_000_000_000, 4_000_000_000);
            lemma_abs_mul_le(self.y.v as int, n.y.v as int, 4_000_000_000, 4_000_000_000);
            lemma_abs_mul_le(self.z.v as int, n.z.v as int, 4_000_000_000, 4_000_000_000);
            lemma_tdiv_le(
                self.x.v * n.x.v + self.y.v * n.y.v + self.z.v * n.z.v,
                SCALE as int,
                48_000_000_000,
            );
        }
        let d: Fixed = self.dot(n);
        let two_d: Fixed = Fixed { v: 2 * d.v };
        proof {
            lemma_abs_mul_le(n.x.v as int, two_d.v as int, 4_000_000_000, 96_000_000_000);
            lemma_abs_mul_le(n.y.v as int, two_d.v as int, 4_000_000_000, 96_000_000_000);
            lemma_abs_mul_le(n.z.v as int, two_d.v as int, 4_000_000_000, 96_000_000_000);
            lemma_tdiv_le(n.x.v * two_d.v, SCALE as int, 384_000_000_000);
            lemma_tdiv_le(n.y.v * two_d.v, SCALE as int, 384_000_000_000);
            lemma_tdiv_le(n.z.v * two_d.v, SCALE as int, 384_000_000_000);
        }
        let scaled: Vec3 = n.scale(two_d);
        self.sub(scaled)
    }

    /// The direction refracted at a surface with unit normal `n` and
    /// refraction ratio `eta`; `self` is the unit incident direction.
    pub fn refract(&self, n: &Vec3, eta: Fixed) -> (r: Vec3)
        requires
            in_bound(*self, 2_000_000_000),
            in_bound(*n, 2_000_000_000),
            0 <= eta.v <= 10_000_000_000,
        ensures
            r == refract_spec(*self, *n, eta.v as int),
            in_bound(r, 1_400_000_000_000),
    {
        let neg_uv: Vec3 = self.neg();
        assert(neg_uv == vneg_spec(*self));
        proof {
            lemma_abs_mul_le(neg_uv.x.v as int, n.x.v as int, 2_000_000_000, 2_000_000_000);
            lemma_abs_mul_le(neg_uv.y.v as int, n.y.v as int, 2_000_000_000, 2_000_000_000);
            lemma_abs_mul_le(neg_uv.z.v as int, n.z.v as int, 2_000_000_000, 2_000_000_000);
            lemma_tdiv_le(
                neg_uv.x.v * n.x.v + neg_uv.y.v * n.y.v + neg_uv.z.v * n.z.v,
                SCALE as int,
                13_000_000_000,
            );
        }
        let cos_theta: Fixed = neg_uv.dot(n).min(Fixed { v: SCALE });
        proof {
            lemma_abs_mul_le(n.x.v as int, cos_theta.v as int, 2_000_000_000, 13_000_000_000);
            lemma_abs_mul_le(n.y.v as int, cos_theta.v as int, 2_000_000_000, 13_000_000_000);
            lemma_abs_mul_le(n.z.v as int, cos_theta.v as int, 2_000_000_000, 13_000_000_000);
            lemma_tdiv_le(n.x.v * cos_theta.v, SCALE as int, 26_000_000_000);
            lemma_tdiv_le(n.y.v * cos_theta.v, SCALE as int, 26_000_000_000);
            lemma_tdiv_le(n.z.v * cos_theta.v, SCALE as int, 26_000_000_000);
        }
        let inner: Vec3 = self.add(n.scale(cos_theta));
        proof {
            lemma_abs_mul_le(inner.x.v as int, eta.v as int, 28_000_000_000, 10_000_000_000);
            lemma_abs_mul_le(inner.y.v as int, eta.v as int, 28_000_000_000, 10_000_000_000);
            lemma_abs_mul_le(inner.z.v as int, eta.v as int, 28_000_000_000, 10_000_000_000);
            lemma_tdiv_le(inner.x.v * eta.v, SCALE as int, 280_000_000_000);
            lemma_tdiv_le(inner.y.v * eta.v, SCALE as int, 280_000_000_000);
            lemma_tdiv_le(inner.z.v * eta.v, SCALE as int, 280_000_000_000);
        }
        let r_out_perp: Vec3 = inner.scale(eta);
        proof {
            lemma_abs_mul_le(
                r_out_perp.x.v as int,
                r_out_perp.x.v as int,
                280_000_000_000,
                280_000_000_000,
            );
            lemma_abs_mul_le(
                r_out_perp.y.v as int,
                r_out_perp.y.v as int,
                280_000_000_000,
                280_000_000_000,
            );
            lemma_abs_mul_le(
                r_out_perp.z.v as int,
                r_out_perp.z.v as int,
                280_000_000_000,
                280_000_000_000,
            );
            lemma_tdiv_le(
                r_out_perp.x.v * r_out_perp.x.v + r_out_perp.y.v * r_out_perp.y.v + r_out_perp.z.v
                    * r_out_perp.z.v,
                SCALE as int,
                240_000_000_000_000,
            );
        }
        let k: Fixed = r_out_perp.norm_squared();
        let a: Fixed = Fixed { v: SCALE }.sub(k).abs();
        let sq: Fixed = a.sqrt();
        assert(sq.v <= 510_000_000_000) by (nonlinear_arith)
            requires
                sq.v * sq.v <= a.v * (SCALE as int),
                0 <= a.v <= 241_000_000_000_000,
        ;
        proof {
            lemma_abs_mul_le(n.x.v as int, -sq.v as int, 2_000_000_000, 510_000_000_000);
            lemma_abs_mul_le(n.y.v as int, -sq.v as int, 2_000_000_000, 510_000_000_000);
            lemma_abs_mul_le(n.z.v as int, -sq.v as int, 2_000_000_000, 510_000_000_000);
            lemma_tdiv_le(n.x.v * -sq.v, SCALE as int, 1_020_000_000_000);
            lemma_tdiv_le(n.y.v * -sq.v, SCALE as int, 1_020_000_000_000);
            lemma_tdiv_le(n.z.v * -sq.v, SCALE as int, 1_020_000_000_000);
        }
        let r_out_parallel: Vec3 = n.scale(sq.neg());
        r_out_perp.add(r_out_parallel)
    }
}

} // verus!
