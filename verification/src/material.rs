//! Surface materials: a closed union of the three scattering behaviours,
//! dispatched by pattern matching.

use vstd::prelude::*;
use crate::fixed::{Fixed, SCALE, absi, fmul, fdiv, lemma_abs_mul_le, lemma_tdiv_le};
use crate::vec3::{Vec3, in_bound, dot_spec, mini, near_zero_spec, reflect_spec, refract_spec,
    normalize_spec, vneg_spec};
use crate::ray::{Ray, ray_wf};
use crate::hittable::HitRecord;
use crate::sampling::{rand_unit_vector, rand_in_unit_sphere, random_fraction};

verus! {

/// A surface's scattering behaviour. Materials carry no mutable state;
/// spheres hold their material by value.
#[derive(Clone, Copy, PartialEq, Eq, Structural, Debug)]
pub enum Material {
    /// Diffuse: scatters about the normal, attenuating by `albedo`.
    Lambertian { albedo: Vec3 },
    /// Reflective: mirrors the incident direction, fuzzed by a sphere of
    /// radius `fuzz`; absorbs rays that end up under the surface.
    Metal { albedo: Vec3, fuzz: Fixed },
    /// Transparent: refracts or reflects according to Schlick's
    /// approximation; attenuates nothing.
    Dielectric { ir: Fixed },
}

/// A colour with every channel inside `[0, 1]`.
pub open spec fn colour_unit(c: Vec3) -> bool {
    &&& 0 <= c.x.v <= SCALE as int
    &&& 0 <= c.y.v <= SCALE as int
    &&& 0 <= c.z.v <= SCALE as int
}

/// A well-formed material: albedo channels inside the unit interval,
/// fuzz inside `[0, 1]`, refraction index inside `[1/10, 10]`.
pub open spec fn material_wf(m: Material) -> bool {
    match m {
        Material::Lambertian { albedo } => colour_unit(albedo),
        Material::Metal { albedo, fuzz } => colour_unit(albedo) && 0 <= fuzz.v <= SCALE as int,
        Material::Dielectric { ir } => (SCALE as int) / 10 <= ir.v <= 10 * (SCALE as int),
    }
}

/// Decide well-formedness of a material at run time, for callers that
/// receive one from outside the verified world.
pub fn material_wf_check(m: &Material) -> (r: bool)
    ensures
        r == material_wf(*m),
{
    match *m {
        Material::Lambertian { albedo } => colour_unit_check(&albedo),
        Material::Metal { albedo, fuzz } => colour_unit_check(&albedo) && 0 <= fuzz.v
            && fuzz.v <= SCALE,
        Material::Dielectric { ir } => SCALE / 10 <= ir.v && ir.v <= 10 * SCALE,
    }
}

/// Decide whether every channel lies inside the unit interval.
pub fn colour_unit_check(c: &Vec3) -> (r: bool)
    ensures
        r == colour_unit(*c),
{
    0 <= c.x.v && c.x.v <= SCALE && 0 <= c.y.v && c.y.v <= SCALE && 0 <= c.z.v && c.z.v <= SCALE
}

/// Total internal reflection: the refraction ratio times the sine of the
/// incident angle exceeds one, so no refracted direction exists.
pub open spec fn cannot_refract_spec(unit: Vec3, normal: Vec3, ratio: int) -> bool {
    let cos_theta = mini(dot_spec(vneg_spec(unit), normal), SCALE as int);
    let sin2 = (SCALE as int) - fmul(cos_theta, cos_theta);
    let sin2_clamped = if sin2 < 0 {
        0
    } else {
        sin2
    };
    fmul(ratio, crate::fixed::sqrt_floor(sin2_clamped * (SCALE as int))) > SCALE as int
}

/// Schlick's approximation of Fresnel reflectance, exactly as computed:
/// `r0 + (1 - r0) * (1 - cosine)^5` with `r0 = ((1 - ir) / (1 + ir))^2`.
pub open spec fn schlick_spec(cosine: int, ref_idx: int) -> int {
    let r0 = fdiv((SCALE as int) - ref_idx, (SCALE as int) + ref_idx);
    let r0s = fmul(r0, r0);
    let p = (SCALE as int) - cosine;
    let p2 = fmul(p, p);
    let p5 = fmul(fmul(p2, p2), p);
    r0s + fmul((SCALE as int) - r0s, p5)
}

/// Schlick's reflectance approximation, used to choose stochastically
/// between reflection and refraction at a dielectric surface.
pub fn reflectance(cosine: Fixed, ref_idx: Fixed) -> (r: Fixed)
    requires
        -7_000_000_000 <= cosine.v <= SCALE as int,
        (SCALE as int) / 10 <= ref_idx.v <= 10 * (SCALE as int),
    ensures
        r.v == schlick_spec(cosine.v as int, ref_idx.v as int),
        absi(r.v as int) <= 66_000_000_000_000,
{
    let num: Fixed = Fixed { v: SCALE }.sub(ref_idx);
    let den: Fixed = Fixed { v: SCALE }.add(ref_idx);
    proof {
        lemma_abs_mul_le(num.v as int, SCALE as int, 9_000_000_000, 1_000_000_000);
        assert(absi(num.v as int) <= absi(den.v as int));
        lemma_tdiv_le(num.v * (SCALE as int), den.v as int, 1_000_000_000);
    }
    let r0: Fixed = num.div(den);
    proof {
        lemma_abs_mul_le(r0.v as int, r0.v as int, 1_000_000_000, 1_000_000_000);
        lemma_tdiv_le(r0.v * r0.v, SCALE as int, 1_000_000_000);
    }
    let r0s: Fixed = r0.mul(r0);
    let p: Fixed = Fixed { v: SCALE }.sub(cosine);
    proof {
        lemma_abs_mul_le(p.v as int, p.v as int, 8_000_000_000, 8_000_000_000);
        lemma_tdiv_le(p.v * p.v, SCALE as int, 64_000_000_000);
    }
    let p2: Fixed = p.mul(p);
    proof {
        lemma_abs_mul_le(p2.v as int, p2.v as int, 64_000_000_000, 64_000_000_000);
        lemma_tdiv_le(p2.v * p2.v, SCALE as int, 4_096_000_000_000);
    }
    let p4: Fixed = p2.mul(p2);
    proof {
        lemma_abs_mul_le(p4.v as int, p.v as int, 4_096_000_000_000, 8_000_000_000);
        lemma_tdiv_le(p4.v * p.v, SCALE as int, 32_768_000_000_000);
    }
    let p5: Fixed = p4.mul(p);
    let one_minus_r0s: Fixed = Fixed { v: SCALE }.sub(r0s);
    proof {
        lemma_abs_mul_le(one_minus_r0s.v as int, p5.v as int, 2_000_000_000, 32_768_000_000_000);
        lemma_tdiv_le(one_minus_r0s.v * p5.v, SCALE as int, 65_536_000_000_000);
    }
    r0s.add(one_minus_r0s.mul(p5))
}

impl Material {
    /// Scatter an incident ray at a hit.
    ///
    /// `None` means the ray was absorbed. A Lambertian surface always
    /// scatters, attenuating by exactly its albedo; a metal scatters only
    /// when the fuzzed reflection leaves the surface; a dielectric always
    /// scatters with unit attenuation, by reflection or refraction of the
    /// normalized incident direction.
    pub fn scatter(&self, r_in: &Ray, rec: &HitRecord) -> (res: Option<(Vec3, Ray)>)
        requires
            material_wf(*self),
            ray_wf(*r_in),
            in_bound(rec.p, crate::ray::WB as int),
            in_bound(rec.normal, crate::hittable::NB as int),
        ensures
            (self matches Material::Lambertian { albedo } ==> {
                &&& res is Some
                &&& res matches Some((att, sc)) ==> att == albedo && sc.origin == rec.p
                    && sc.time == r_in.time && ray_wf(sc) && (near_zero_spec(sc.direction)
                    ==> sc.direction == rec.normal)
            }),
            (self matches Material::Metal { albedo, fuzz } ==> (res matches Some((att, sc))
                ==> {
                &&& att == albedo
                &&& sc.origin == rec.p
                &&& sc.time == r_in.time
                &&& ray_wf(sc)
                &&& dot_spec(sc.direction, rec.normal) > 0
                &&& (fuzz.v == 0 ==> sc.direction == reflect_spec(
                    normalize_spec(r_in.direction),
                    rec.normal,
                ))
            })),
            (self matches Material::Metal { albedo, fuzz } ==> (fuzz.v == 0 ==> (res is Some
                <==> dot_spec(
                reflect_spec(normalize_spec(r_in.direction), rec.normal),
                rec.normal,
            ) > 0))),
            (self matches Material::Dielectric { ir } ==> {
                &&& res is Some
                &&& res matches Some((att, sc)) ==> {
                    let unit = normalize_spec(r_in.direction);
                    let ratio = if rec.front_face {
                        fdiv(SCALE as int, ir.v as int)
                    } else {
                        ir.v as int
                    };
                    &&& att == (Vec3 {
                        x: Fixed { v: SCALE },
                        y: Fixed { v: SCALE },
                        z: Fixed { v: SCALE },
                    })
                    &&& sc.origin == rec.p
                    &&& sc.time == r_in.time
                    &&& ray_wf(sc)
                    &&& (sc.direction == reflect_spec(unit, rec.normal) || sc.direction
                        == refract_spec(unit, rec.normal, ratio))
                    &&& (cannot_refract_spec(unit, rec.normal, ratio) ==> sc.direction
                        == reflect_spec(unit, rec.normal))
                }
            }),
    {
        match *self {
            Material::Lambertian { albedo } => {
                let ruv: Vec3 = rand_unit_vector();
                let mut scatter_direction: Vec3 = rec.normal.add(ruv);
                if scatter_direction.near_zero() {
                    scatter_direction = rec.normal;
                }
                let scattered: Ray = Ray {
                    origin: rec.p,
                    direction: scatter_direction,
                    time: r_in.time,
                };
                Some((albedo, scattered))
            },
            Material::Metal { albedo, fuzz } => {
                let unit: Vec3 = r_in.direction.normalize();
                let reflected: Vec3 = unit.reflect(&rec.normal);
                let fuzz_offset: Vec3 = rand_in_unit_sphere();
                proof {
                    lemma_abs_mul_le(
                        fuzz_offset.x.v as int,
                        fuzz.v as int,
                        1_000_000_000,
                        1_000_000_000,
                    );
                    lemma_abs_mul_le(
                        fuzz_offset.y.v as int,
                        fuzz.v as int,
                        1_000_000_000,
                        1_000_000_000,
                    );
                    lemma_abs_mul_le(
                        fuzz_offset.z.v as int,
                        fuzz.v as int,
                        1_000_000_000,
                        1_000_000_000,
                    );
                    lemma_tdiv_le(fuzz_offset.x.v * fuzz.v, SCALE as int, 1_000_000_000);
                    lemma_tdiv_le(fuzz_offset.y.v * fuzz.v, SCALE as int, 1_000_000_000);
                    lemma_tdiv_le(fuzz_offset.z.v * fuzz.v, SCALE as int, 1_000_000_000);
                }
                proof {
                    if fuzz.v == 0 {
                        crate::fixed::lemma_fmul_zero(fuzz_offset.x.v as int);
                        crate::fixed::lemma_fmul_zero(fuzz_offset.y.v as int);
                        crate::fixed::lemma_fmul_zero(fuzz_offset.z.v as int);
                    }
                }
                let fuzzed: Vec3 = reflected.add(fuzz_offset.scale(fuzz));
                let scattered: Ray = Ray { origin: rec.p, direction: fuzzed, time: r_in.time };
                if scattered.direction.dot(&rec.normal).v > 0 {
                    Some((albedo, scattered))
                } else {
                    None
                }
            },
            Material::Dielectric { ir } => {
                let attenuation: Vec3 = Vec3 {
                    x: Fixed { v: SCALE },
                    y: Fixed { v: SCALE },
                    z: Fixed { v: SCALE },
                };
                let unit: Vec3 = r_in.direction.normalize();
                let refraction_ratio: Fixed = if rec.front_face {
                    proof {
                        crate::fixed::lemma_tdiv_lower(
                            (SCALE as int) * (SCALE as int),
                            ir.v as int,
                            100_000_000,
                        );
                        lemma_tdiv_le((SCALE as int) * (SCALE as int), ir.v as int,
                            10_000_000_000);
                    }
                    Fixed { v: SCALE }.div(ir)
                } else {
                    ir
                };
                let cos_theta: Fixed = unit.neg().dot(&rec.normal).min(Fixed { v: SCALE });
                proof {
                    lemma_abs_mul_le(
                        (-unit.x.v) as int,
                        rec.normal.x.v as int,
                        1_000_000_000,
                        2_000_000_000,
                    );
                    lemma_abs_mul_le(
                        (-unit.y.v) as int,
                        rec.normal.y.v as int,
                        1_000_000_000,
                        2_000_000_000,
                    );
                    lemma_abs_mul_le(
                        (-unit.z.v) as int,
                        rec.normal.z.v as int,
                        1_000_000_000,
                        2_000_000_000,
                    );
                    lemma_tdiv_le(
                        -unit.x.v * rec.normal.x.v + -unit.y.v * rec.normal.y.v + -unit.z.v
                            * rec.normal.z.v,
                        SCALE as int,
                        6_000_000_000,
                    );
                    lemma_abs_mul_le(cos_theta.v as int, cos_theta.v as int, 6_000_000_000,
                        6_000_000_000);
                    lemma_tdiv_le(cos_theta.v * cos_theta.v, SCALE as int, 36_000_000_000);
                    assert(cos_theta.v * cos_theta.v >= 0) by (nonlinear_arith);
                }
                let sin2_raw: Fixed = Fixed { v: SCALE }.sub(cos_theta.mul(cos_theta));
                let sin2: Fixed = if sin2_raw.v < 0 {
                    Fixed { v: 0 }
                } else {
                    sin2_raw
                };
                let sin_theta: Fixed = sin2.sqrt();
                assert(sin_theta.v <= 1_100_000_000) by (nonlinear_arith)
                    requires
                        sin_theta.v * sin_theta.v <= sin2.v * (SCALE as int),
                        0 <= sin2.v <= 1_000_000_000,
                        sin_theta.v >= 0,
                ;
                proof {
                    lemma_abs_mul_le(
                        refraction_ratio.v as int,
                        sin_theta.v as int,
                        10_000_000_000,
                        1_100_000_000,
                    );
                    lemma_tdiv_le(refraction_ratio.v * sin_theta.v, SCALE as int,
                        11_000_000_000);
                }
                let cannot_refract: bool = refraction_ratio.mul(sin_theta).v > SCALE;
                let direction: Vec3 = if cannot_refract || reflectance(
                    cos_theta,
                    refraction_ratio,
                ).v > random_fraction().v {
                    unit.reflect(&rec.normal)
                } else {
                    unit.refract(&rec.normal, refraction_ratio)
                };
                let scattered: Ray = Ray { origin: rec.p, direction, time: r_in.time };
                Some((attenuation, scattered))
            },
        }
    }
}

} // verus!
