//! Spheres and hit records.
//!
//! `Sphere::hit` solves the intersection quadratic in the half-b form over
//! 128-bit intermediates and is proved to return exactly the value of the
//! specification `sphere_hit_spec`, which mirrors the computation over
//! mathematical integers. Degenerate inputs (zero direction, a hit point
//! or normal outside the representable world) yield no hit rather than
//! undefined arithmetic.

use vstd::prelude::*;
use crate::fixed::{Fixed, SCALE, absi, tdiv, fmul, fdiv, sqrt_floor, lemma_sqrt_floor_unique,
    lemma_abs_mul_le, lemma_tdiv_le, tdiv128};
use crate::vec3::{Vec3, in_bound, in_bound_check, dot_spec, vadd_spec, vsub_spec, vneg_spec,
    vscale_spec, lemma_dot_self_nonneg, VB};
use crate::ray::{Ray, ray_wf, WB};
use crate::material::{Material, material_wf};

verus! {

/// Bound on the magnitude of the components of an outward normal the
/// intersection routine will accept: two in real terms (a true outward
/// normal is unit length up to rounding).
pub const NB: i64 = 2_000_000_000;

/// What an intersection records: the point, the ray parameter, the normal
/// facing against the ray, which side was hit, and the surface material.
#[derive(Clone, Copy, PartialEq, Eq, Structural, Debug)]
pub struct HitRecord {
    pub p: Vec3,
    pub t: Fixed,
    pub normal: Vec3,
    pub front_face: bool,
    pub mat: Material,
}

/// The face flag and the normal stored for a hit: `front_face` holds when
/// the ray runs against the outward normal; the stored normal is flipped
/// to face the ray otherwise.
pub open spec fn face_normal_spec(r: Ray, outward: Vec3) -> (bool, Vec3) {
    let ff = dot_spec(r.direction, outward) < 0;
    if ff {
        (ff, outward)
    } else {
        (ff, vneg_spec(outward))
    }
}

impl HitRecord {
    /// A record for a hit at `p` with parameter `t`, storing the normal
    /// that faces against the ray.
    pub fn new(p: Vec3, t: Fixed, r: &Ray, outward_normal: &Vec3, mat: Material) -> (rec:
        HitRecord)
        requires
            in_bound(r.direction, VB as int),
            in_bound(*outward_normal, VB as int),
        ensures
            rec.p == p,
            rec.t == t,
            rec.mat == mat,
            rec.front_face == face_normal_spec(*r, *outward_normal).0,
            rec.normal == face_normal_spec(*r, *outward_normal).1,
    {
        let (front_face, normal) = calculate_face_normal(r, outward_normal);
        HitRecord { p, t, normal, front_face, mat }
    }

    /// Re-derive the stored normal and face flag from a new outward
    /// normal.
    pub fn set_face_normal(&mut self, r: &Ray, outward_normal: &Vec3)
        requires
            in_bound(r.direction, VB as int),
            in_bound(*outward_normal, VB as int),
        ensures
            final(self).p == old(self).p,
            final(self).t == old(self).t,
            final(self).mat == old(self).mat,
            final(self).front_face == face_normal_spec(*r, *outward_normal).0,
            final(self).normal == face_normal_spec(*r, *outward_normal).1,
    {
        let (front_face, normal) = calculate_face_normal(r, outward_normal);
        self.front_face = front_face;
        self.normal = normal;
    }
}

/// Whether the ray runs against the outward normal, and the normal to
/// store.
fn calculate_face_normal(r: &Ray, outward_normal: &Vec3) -> (fan: (bool, Vec3))
    requires
        in_bound(r.direction, VB as int),
        in_bound(*outward_normal, VB as int),
    ensures
        fan == face_normal_spec(*r, *outward_normal),
{
    let front_face: bool = r.direction.dot(outward_normal).v < 0;
    let normal: Vec3 = if front_face {
        *outward_normal
    } else {
        outward_normal.neg()
    };
    (front_face, normal)
}

/// A sphere whose centre moves linearly with the ray time parameter:
/// `centre(t) = centre0 + t * displacement`. A negative radius flips the
/// outward normal inward, modelling a hollow shell.
#[derive(Clone, Copy, PartialEq, Eq, Structural, Debug)]
pub struct Sphere {
    pub centre0: Vec3,
    pub displacement: Vec3,
    pub radius: Fixed,
    pub mat: Material,
}

/// A sphere the tracer accepts: geometry within the world bound, a
/// nonzero radius, a well-formed material.
pub open spec fn sphere_wf(s: Sphere) -> bool {
    &&& in_bound(s.centre0, WB as int)
    &&& in_bound(s.displacement, WB as int)
    &&& 1 <= absi(s.radius.v as int) <= WB as int
    &&& material_wf(s.mat)
}

/// Decide well-formedness of a sphere at run time.
pub fn sphere_wf_check(s: &Sphere) -> (r: bool)
    ensures
        r == sphere_wf(*s),
{
    in_bound_check(&s.centre0, WB) && in_bound_check(&s.displacement, WB) && s.radius.v != 0
        && s.radius.v >= -WB && s.radius.v <= WB && crate::material::material_wf_check(&s.mat)
}

/// The centre at a given time.
pub open spec fn sphere_centre_spec(s: Sphere, time: int) -> Vec3 {
    vadd_spec(s.centre0, vscale_spec(s.displacement, time))
}

/// The record produced once a root has been accepted: the hit point, the
/// outward normal `(p - centre) / radius`, and the face-corrected normal.
/// A point or normal outside the representable bounds yields no hit.
pub open spec fn sphere_hit_at(s: Sphere, r: Ray, centre: Vec3, root: int) -> Option<HitRecord> {
    let px = r.origin.x.v + fmul(r.direction.x.v as int, root);
    let py = r.origin.y.v + fmul(r.direction.y.v as int, root);
    let pz = r.origin.z.v + fmul(r.direction.z.v as int, root);
    if absi(px) > WB as int || absi(py) > WB as int || absi(pz) > WB as int {
        None
    } else {
        let p = Vec3 { x: Fixed { v: px as i64 }, y: Fixed { v: py as i64 }, z: Fixed { v: pz as i64 } };
        let nx = fdiv(p.x.v - centre.x.v, s.radius.v as int);
        let ny = fdiv(p.y.v - centre.y.v, s.radius.v as int);
        let nz = fdiv(p.z.v - centre.z.v, s.radius.v as int);
        if absi(nx) > NB as int || absi(ny) > NB as int || absi(nz) > NB as int {
            None
        } else {
            let outward = Vec3 { x: Fixed { v: nx as i64 }, y: Fixed { v: ny as i64 }, z: Fixed { v: nz as i64 } };
            let fan = face_normal_spec(r, outward);
            Some(
                HitRecord {
                    p,
                    t: Fixed { v: root as i64 },
                    normal: fan.1,
                    front_face: fan.0,
                    mat: s.mat,
                },
            )
        }
    }
}

/// The whole intersection: the quadratic `|O + tD - C|^2 = radius^2` in
/// the half-b form, the nearer root preferred, roots accepted only inside
/// `[t_min, t_max]`. A zero direction or a negative discriminant is a
/// miss.
pub open spec fn sphere_hit_spec(s: Sphere, r: Ray, t_min: int, t_max: int) -> Option<HitRecord> {
    let centre = sphere_centre_spec(s, r.time.v as int);
    let oc = vsub_spec(r.origin, centre);
    let a = dot_spec(r.direction, r.direction);
    let half_b = dot_spec(oc, r.direction);
    let c = dot_spec(oc, oc) - fmul(s.radius.v as int, s.radius.v as int);
    let disc = half_b * half_b - a * c;
    if a == 0 || disc < 0 {
        None
    } else {
        let sqrtd = sqrt_floor(disc);
        let root1 = tdiv((-half_b - sqrtd) * (SCALE as int), a);
        let root2 = tdiv((-half_b + sqrtd) * (SCALE as int), a);
        if t_min <= root1 && root1 <= t_max {
            sphere_hit_at(s, r, centre, root1)
        } else if t_min <= root2 && root2 <= t_max {
            sphere_hit_at(s, r, centre, root2)
        } else {
            None
        }
    }
}

impl Sphere {
    /// A sphere that does not move.
    pub fn new_stationary(centre: Vec3, radius: Fixed, mat: Material) -> (s: Sphere)
        ensures
            s.centre0 == centre,
            s.displacement == (Vec3 { x: Fixed { v: 0 }, y: Fixed { v: 0 }, z: Fixed { v: 0 } }),
            s.radius == radius,
            s.mat == mat,
    {
        Sphere { centre0: centre, displacement: Vec3::zeros(), radius, mat }
    }

    /// A sphere that moves from `centre0` to `centre1` over the time
    /// interval.
    pub fn new_moving(centre0: Vec3, centre1: Vec3, radius: Fixed, mat: Material) -> (s: Sphere)
        requires
            i64::MIN as int <= centre1.x.v - centre0.x.v <= i64::MAX as int,
            i64::MIN as int <= centre1.y.v - centre0.y.v <= i64::MAX as int,
            i64::MIN as int <= centre1.z.v - centre0.z.v <= i64::MAX as int,
        ensures
            s.centre0 == centre0,
            s.displacement == vsub_spec(centre1, centre0),
            s.radius == radius,
            s.mat == mat,
    {
        Sphere { centre0, displacement: centre1.sub(centre0), radius, mat }
    }

    /// The centre at the ray's time.
    fn sphere_centre(&self, time: Fixed) -> (c: Vec3)
        requires
            sphere_wf(*self),
            0 <= time.v <= SCALE as int,
        ensures
            c == sphere_centre_spec(*self, time.v as int),
            in_bound(c, 2 * (WB as int)),
    {
        proof {
            lemma_abs_mul_le(
                self.displacement.x.v as int,
                time.v as int,
                WB as int,
                1_000_000_000,
            );
            lemma_abs_mul_le(
                self.displacement.y.v as int,
                time.v as int,
                WB as int,
                1_000_000_000,
            );
            lemma_abs_mul_le(
                self.displacement.z.v as int,
                time.v as int,
                WB as int,
                1_000_000_000,
            );
            lemma_tdiv_le(self.displacement.x.v * time.v, SCALE as int, WB as int);
            lemma_tdiv_le(self.displacement.y.v * time.v, SCALE as int, WB as int);
            lemma_tdiv_le(self.displacement.z.v * time.v, SCALE as int, WB as int);
        }
        self.centre0.add(self.displacement.scale(time))
    }

    /// Intersect a ray with the sphere over the parameter interval
    /// `[t_min, t_max]`.
    pub fn hit(&self, r: &Ray, t_min: Fixed, t_max: Fixed) -> (res: Option<HitRecord>)
        requires
            sphere_wf(*self),
            ray_wf(*r),
        ensures
            res == sphere_hit_spec(*self, *r, t_min.v as int, t_max.v as int),
            (res matches Some(rec) ==> {
                &&& t_min.v <= rec.t.v <= t_max.v
                &&& in_bound(rec.p, WB as int)
                &&& in_bound(rec.normal, NB as int)
                &&& rec.mat == self.mat
            }),
    {
        let centre: Vec3 = self.sphere_centre(r.time);
        let oc: Vec3 = r.origin.sub(centre);
        proof {
            assert(oc == vsub_spec(r.origin, sphere_centre_spec(*self, r.time.v as int)));
            lemma_dot_self_nonneg(r.direction);
            lemma_dot_self_nonneg(oc);
            // direction . direction
            lemma_abs_mul_le(r.direction.x.v as int, r.direction.x.v as int, WB as int, WB as int);
            lemma_abs_mul_le(r.direction.y.v as int, r.direction.y.v as int, WB as int, WB as int);
            lemma_abs_mul_le(r.direction.z.v as int, r.direction.z.v as int, WB as int, WB as int);
            lemma_tdiv_le(
                r.direction.x.v * r.direction.x.v + r.direction.y.v * r.direction.y.v
                    + r.direction.z.v * r.direction.z.v,
                SCALE as int,
                300_000_000_000_000_000,
            );
            // oc . direction
            lemma_abs_mul_le(oc.x.v as int, r.direction.x.v as int, 3 * (WB as int), WB as int);
            lemma_abs_mul_le(oc.y.v as int, r.direction.y.v as int, 3 * (WB as int), WB as int);
            lemma_abs_mul_le(oc.z.v as int, r.direction.z.v as int, 3 * (WB as int), WB as int);
            lemma_tdiv_le(
                oc.x.v * r.direction.x.v + oc.y.v * r.direction.y.v + oc.z.v * r.direction.z.v,
                SCALE as int,
                900_000_000_000_000_000,
            );
            // oc . oc
            lemma_abs_mul_le(oc.x.v as int, oc.x.v as int, 3 * (WB as int), 3 * (WB as int));
            lemma_abs_mul_le(oc.y.v as int, oc.y.v as int, 3 * (WB as int), 3 * (WB as int));
            lemma_abs_mul_le(oc.z.v as int, oc.z.v as int, 3 * (WB as int), 3 * (WB as int));
            lemma_tdiv_le(
                oc.x.v * oc.x.v + oc.y.v * oc.y.v + oc.z.v * oc.z.v,
                SCALE as int,
                2_700_000_000_000_000_000,
            );
            // radius * radius
            lemma_abs_mul_le(self.radius.v as int, self.radius.v as int, WB as int, WB as int);
            lemma_tdiv_le(self.radius.v * self.radius.v, SCALE as int, 100_000_000_000_000_000);
        }
        let a: Fixed = r.direction.dot(&r.direction);
        let half_b: Fixed = oc.dot(&r.direction);
        let c: Fixed = oc.dot(&oc).sub(self.radius.mul(self.radius));
        if a.v == 0 {
            return None;
        }
        proof {
            lemma_abs_mul_le(
                half_b.v as int,
                half_b.v as int,
                900_000_000_000_000_000,
                900_000_000_000_000_000,
            );
            lemma_abs_mul_le(
                a.v as int,
                c.v as int,
                300_000_000_000_000_000,
                2_800_000_000_000_000_000,
            );
        }
        let disc: i128 = (half_b.v as i128) * (half_b.v as i128) - (a.v as i128) * (c.v as i128);
        if disc < 0 {
            return None;
        }
        let sd: u128 = crate::fixed::isqrt_u128(disc as u128);
        proof {
            lemma_sqrt_floor_unique(disc as int, sd as int);
            assert(sd as int * (sd as int) <= disc as int);
            assert((sd as int) < 2_000_000_000_000_000_000int) by (nonlinear_arith)
                requires
                    (sd as int) * (sd as int) <= disc as int,
                    disc as int <= 1_700_000_000_000_000_000_000_000_000_000_000_000int,
                    sd >= 0,
            ;
        }
        let sqrtd: i128 = sd as i128;
        let num1: i128 = -(half_b.v as i128) - sqrtd;
        let num2: i128 = -(half_b.v as i128) + sqrtd;
        let root1: i128 = tdiv128(num1 * (SCALE as i128), a.v as i128);
        let root2: i128 = tdiv128(num2 * (SCALE as i128), a.v as i128);
        let tl: i128 = t_min.v as i128;
        let th: i128 = t_max.v as i128;
        let root: i128 = if tl <= root1 && root1 <= th {
            root1
        } else if tl <= root2 && root2 <= th {
            root2
        } else {
            return None;
        };
        let rt: i64 = root as i64;
        proof {
            lemma_abs_mul_le(
                r.direction.x.v as int,
                rt as int,
                WB as int,
                9_300_000_000_000_000_000,
            );
            lemma_abs_mul_le(
                r.direction.y.v as int,
                rt as int,
                WB as int,
                9_300_000_000_000_000_000,
            );
            lemma_abs_mul_le(
                r.direction.z.v as int,
                rt as int,
                WB as int,
                9_300_000_000_000_000_000,
            );
        }
        // The hit point, with the world-bound guard.
        let dx: i128 = tdiv128((r.direction.x.v as i128) * (rt as i128), SCALE as i128);
        let dy: i128 = tdiv128((r.direction.y.v as i128) * (rt as i128), SCALE as i128);
        let dz: i128 = tdiv128((r.direction.z.v as i128) * (rt as i128), SCALE as i128);
        let px: i128 = (r.origin.x.v as i128) + dx;
        let py: i128 = (r.origin.y.v as i128) + dy;
        let pz: i128 = (r.origin.z.v as i128) + dz;
        let wb: i128 = WB as i128;
        if px > wb || px < -wb || py > wb || py < -wb || pz > wb || pz < -wb {
            return None;
        }
        let p: Vec3 = Vec3 {
            x: Fixed { v: px as i64 },
            y: Fixed { v: py as i64 },
            z: Fixed { v: pz as i64 },
        };
        // The outward normal (p - centre) / radius, with its own guard.
        let nx: i128 = tdiv128(((p.x.v - centre.x.v) as i128) * (SCALE as i128), self.radius.v as i128);
        let ny: i128 = tdiv128(((p.y.v - centre.y.v) as i128) * (SCALE as i128), self.radius.v as i128);
        let nz: i128 = tdiv128(((p.z.v - centre.z.v) as i128) * (SCALE as i128), self.radius.v as i128);
        let nb: i128 = NB as i128;
        if nx > nb || nx < -nb || ny > nb || ny < -nb || nz > nb || nz < -nb {
            return None;
        }
        let outward: Vec3 = Vec3 {
            x: Fixed { v: nx as i64 },
            y: Fixed { v: ny as i64 },
            z: Fixed { v: nz as i64 },
        };
        let (front_face, normal) = calculate_face_normal(r, &outward);
        Some(HitRecord { p, t: Fixed { v: rt }, normal, front_face, mat: self.mat })
    }
}

} // verus!
