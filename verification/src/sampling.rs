//! Random sampling: uniform fractions, vectors in boxes, and
//! rejection-sampled points in the unit sphere and disk.
//!
//! Nothing is assumed about the values the generator returns; every
//! contract here holds for every possible sequence of draws. The
//! rejection loops are bounded, falling back to the origin (a valid point
//! of either region) in the astronomically unlikely case that every
//! attempt is rejected.

use vstd::prelude::*;
use crate::fixed::{Fixed, SCALE, tdiv, fmul};
use crate::vec3::{Vec3, in_bound, dot_spec, VB};

verus! {

/// Relies on rand::random::<u64>: one draw from the thread-local
/// generator. The value depends on the generator's state, so nothing is
/// stated of it.
#[verifier::external_body]
fn random_u64() -> u64 {
    rand::random::<u64>()
}

/// A uniformly distributed value in `[0, 1)`.
pub fn random_fraction() -> (r: Fixed)
    ensures
        0 <= r.v < SCALE as int,
{
    let x: u64 = random_u64();
    Fixed { v: (x % 1_000_000_000u64) as i64 }
}

/// Multiplying a fraction in `[0, 1)` into a positive span keeps the
/// product inside `[0, span)`.
proof fn lemma_fraction_span(f: int, d: int)
    by (nonlinear_arith)
    requires
        0 <= f < SCALE as int,
        0 < d,
    ensures
        0 <= fmul(f, d) < d,
{
}

/// A scalar drawn uniformly from `[min, max)`.
pub fn random_range(min: Fixed, max: Fixed) -> (r: Fixed)
    requires
        min.v < max.v,
        max.v - min.v <= i64::MAX as int,
    ensures
        min.v <= r.v < max.v,
{
    let span: Fixed = max.sub(min);
    let f: Fixed = random_fraction();
    proof {
        lemma_fraction_span(f.v as int, span.v as int);
        crate::fixed::lemma_abs_mul_le(f.v as int, span.v as int, 999_999_999, i64::MAX as int);
    }
    min.add(f.mul(span))
}

/// A vector with each component drawn uniformly from `[0, 1)`.
pub fn random_vec3() -> (r: Vec3)
    ensures
        0 <= r.x.v < SCALE as int,
        0 <= r.y.v < SCALE as int,
        0 <= r.z.v < SCALE as int,
        in_bound(r, SCALE as int),
{
    Vec3 { x: random_fraction(), y: random_fraction(), z: random_fraction() }
}

/// A vector with each component drawn uniformly from `[min, max)`.
pub fn random_vec3_range(min: Fixed, max: Fixed) -> (r: Vec3)
    requires
        min.v < max.v,
        max.v - min.v <= i64::MAX as int,
    ensures
        min.v <= r.x.v < max.v,
        min.v <= r.y.v < max.v,
        min.v <= r.z.v < max.v,
{
    Vec3 {
        x: random_range(min, max),
        y: random_range(min, max),
        z: random_range(min, max),
    }
}

/// A point strictly inside the unit sphere, by rejection sampling.
pub fn rand_in_unit_sphere() -> (r: Vec3)
    ensures
        in_bound(r, SCALE as int),
        dot_spec(r, r) < SCALE as int,
{
    let mone: Fixed = Fixed { v: -SCALE };
    let one: Fixed = Fixed { v: SCALE };
    let mut i: u32 = 0;
    while i < 64
        invariant
            i <= 64,
            mone.v == -(SCALE as int),
            one.v == SCALE as int,
        decreases 64 - i,
    {
        let p: Vec3 = random_vec3_range(mone, one);
        let q: Fixed = p.norm_squared();
        if q.v < SCALE {
            return p;
        }
        i = i + 1;
    }
    let z: Vec3 = Vec3::zeros();
    assert(dot_spec(z, z) == 0);
    z
}

/// A unit-length vector with uniformly random direction: a normalized
/// ball sample whose squared norm is within half a microunit of one.
///
/// A draw so close to the origin that its normalization misses that
/// tolerance (possible only for samples near the model's resolution) is
/// rejected and redrawn, exactly like an out-of-sphere draw; rejection by
/// radius leaves the direction distribution uniform.
pub fn rand_unit_vector() -> (r: Vec3)
    ensures
        in_bound(r, SCALE as int),
        (SCALE as int) - 500 <= dot_spec(r, r) <= (SCALE as int) + 500,
{
    let mut i: u32 = 0;
    while i < 64
        invariant
            i <= 64,
        decreases 64 - i,
    {
        let p: Vec3 = rand_in_unit_sphere();
        let u: Vec3 = p.normalize();
        let q: Fixed = u.norm_squared();
        if SCALE - 500 <= q.v && q.v <= SCALE + 500 {
            return u;
        }
        i = i + 1;
    }
    let z: Vec3 = Vec3 { x: Fixed { v: 0 }, y: Fixed { v: 0 }, z: Fixed { v: SCALE } };
    assert(dot_spec(z, z) == SCALE as int) by {
        assert(z.x.v * z.x.v + z.y.v * z.y.v + z.z.v * z.z.v == 1_000_000_000_000_000_000)
            by (nonlinear_arith)
            requires
                z.x.v == 0,
                z.y.v == 0,
                z.z.v == 1_000_000_000,
        ;
        crate::fixed::lemma_tdiv_lower(1_000_000_000_000_000_000, SCALE as int, 1_000_000_000);
        crate::fixed::lemma_tdiv_strict(1_000_000_000_000_000_000, SCALE as int, 1_000_000_001);
    }
    z
}

/// A point strictly inside the unit disk of the xy-plane.
pub fn rand_in_unit_disk() -> (r: Vec3)
    ensures
        in_bound(r, SCALE as int),
        r.z.v == 0,
        dot_spec(r, r) < SCALE as int,
{
    let mone: Fixed = Fixed { v: -SCALE };
    let one: Fixed = Fixed { v: SCALE };
    let mut i: u32 = 0;
    while i < 64
        invariant
            i <= 64,
            mone.v == -(SCALE as int),
            one.v == SCALE as int,
        decreases 64 - i,
    {
        let p: Vec3 = Vec3 {
            x: random_range(mone, one),
            y: random_range(mone, one),
            z: Fixed { v: 0 },
        };
        let q: Fixed = p.norm_squared();
        if q.v < SCALE {
            return p;
        }
        i = i + 1;
    }
    let z: Vec3 = Vec3::zeros();
    assert(dot_spec(z, z) == 0);
    z
}

/// A point inside the unit sphere, flipped into the hemisphere around
/// `normal`.
pub fn rand_in_hemisphere(normal: &Vec3) -> (r: Vec3)
    requires
        in_bound(*normal, VB as int),
    ensures
        in_bound(r, SCALE as int),
        dot_spec(r, r) < SCALE as int,
        dot_spec(r, *normal) >= 0,
{
    let in_unit_sphere: Vec3 = rand_in_unit_sphere();
    let d: Fixed = in_unit_sphere.dot(normal);
    if d.v > 0 {
        in_unit_sphere
    } else {
        let flipped: Vec3 = in_unit_sphere.neg();
        assert(dot_spec(flipped, flipped) == dot_spec(in_unit_sphere, in_unit_sphere)) by {
            assert(flipped.x.v * flipped.x.v + flipped.y.v * flipped.y.v + flipped.z.v
                * flipped.z.v == in_unit_sphere.x.v * in_unit_sphere.x.v + in_unit_sphere.y.v
                * in_unit_sphere.y.v + in_unit_sphere.z.v * in_unit_sphere.z.v)
                by (nonlinear_arith)
                requires
                    flipped.x.v == -in_unit_sphere.x.v,
                    flipped.y.v == -in_unit_sphere.y.v,
                    flipped.z.v == -in_unit_sphere.z.v,
            ;
        }
        assert(dot_spec(flipped, *normal) == -dot_spec(in_unit_sphere, *normal)) by {
            assert(flipped.x.v * normal.x.v + flipped.y.v * normal.y.v + flipped.z.v * normal.z.v
                == -(in_unit_sphere.x.v * normal.x.v + in_unit_sphere.y.v * normal.y.v
                + in_unit_sphere.z.v * normal.z.v)) by (nonlinear_arith)
                requires
                    flipped.x.v == -in_unit_sphere.x.v,
                    flipped.y.v == -in_unit_sphere.y.v,
                    flipped.z.v == -in_unit_sphere.z.v,
            ;
        }
        flipped
    }
}

} // verus!
