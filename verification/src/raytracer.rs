//! The path-tracing estimator and the render driver.
//!
//! `ray_colour` is the recursive Monte Carlo radiance estimate; its
//! contract pins the depth cutoff, the analytic sky on a miss, and the
//! energy bound: every channel of the estimate stays inside `[0, 1]` for
//! a well-formed scene. `render` walks the image deterministically and is
//! proved to emit exactly one pixel event per pixel, carrying exactly the
//! colour stored in the matrix.

use vstd::prelude::*;
use crate::fixed::{Fixed, SCALE, tdiv, fmul, fdiv, lemma_tdiv_le, lemma_fmul_unit};
use crate::vec3::{Vec3, in_bound, dot_spec, normalize_spec, VB};
use crate::ray::{Ray, ray_wf};
use crate::hittable::{HitRecord, Sphere};
use crate::hittable_list::{HittableList, list_wf, list_hit_spec};
use crate::material::{Material, colour_unit};
use crate::camera::{Camera, camera_wf};
use crate::config::{Settings, settings_wf};
use crate::sampling::{random_fraction, random_range, random_vec3};

verus! {

/// The shadow-acne bound: intersections closer than 0.001 along the ray
/// are ignored so a bounce cannot re-hit its own origin.
pub const T_MIN_EPSILON: i64 = 1_000_000;

/// A completed pixel: its summed, unnormalized colour and its
/// coordinates.
pub struct ColourPosition {
    pub colour: Vec3,
    pub point: (u32, u32),
}

/// The analytic sky: a vertical gradient from white at the bottom to a
/// pale blue at the top, evaluated on the normalized ray direction.
pub open spec fn background_spec(r: Ray) -> Vec3 {
    let unit = normalize_spec(r.direction);
    let tt = fmul(unit.y.v + (SCALE as int), 500_000_000);
    Vec3 {
        x: Fixed {
            v: (fmul(SCALE as int, (SCALE as int) - tt) + fmul(500_000_000, tt)) as i64,
        },
        y: Fixed {
            v: (fmul(SCALE as int, (SCALE as int) - tt) + fmul(700_000_000, tt)) as i64,
        },
        z: Fixed {
            v: (fmul(SCALE as int, (SCALE as int) - tt) + fmul(SCALE as int, tt)) as i64,
        },
    }
}

/// The sky colour for a ray that hits nothing.
pub fn background(r: &Ray) -> (c: Vec3)
    requires
        in_bound(r.direction, VB as int),
    ensures
        c == background_spec(*r),
        colour_unit(c),
{
    let unit: Vec3 = r.direction.normalize();
    let tt: Fixed = Fixed { v: unit.y.v + SCALE }.mul(Fixed { v: 500_000_000 });
    proof {
        lemma_tdiv_le((unit.y.v + SCALE) * 500_000_000, SCALE as int, 1_000_000_000);
    }
    let omt: Fixed = Fixed { v: SCALE }.sub(tt);
    proof {
        lemma_fmul_unit(SCALE as int, omt.v as int);
        lemma_fmul_unit(500_000_000, tt.v as int);
        lemma_fmul_unit(700_000_000, tt.v as int);
        lemma_fmul_unit(SCALE as int, tt.v as int);
    }
    let white: Vec3 = Vec3 {
        x: Fixed { v: SCALE },
        y: Fixed { v: SCALE },
        z: Fixed { v: SCALE },
    };
    let sky: Vec3 = Vec3 {
        x: Fixed { v: 500_000_000 },
        y: Fixed { v: 700_000_000 },
        z: Fixed { v: SCALE },
    };
    white.scale(omt).add(sky.scale(tt))
}

/// The Monte Carlo radiance estimate along a ray.
///
/// At depth zero the estimate is exactly black; a miss returns exactly
/// the sky; a bounce attenuates the recursive estimate multiplicatively.
/// Whatever the random scattering does, every channel stays in `[0, 1]`:
/// bounces never add energy beyond the sky's maximum.
pub fn ray_colour(r: &Ray, world: &HittableList, depth: u32) -> (c: Vec3)
    requires
        ray_wf(*r),
        list_wf(world.objects@),
    ensures
        colour_unit(c),
        depth == 0 ==> c == (Vec3 { x: Fixed { v: 0 }, y: Fixed { v: 0 }, z: Fixed { v: 0 } }),
        depth > 0 && list_hit_spec(
            world.objects@,
            *r,
            T_MIN_EPSILON as int,
            i64::MAX as int,
        ) is None ==> c == background_spec(*r),
    decreases depth,
{
    if depth == 0 {
        return Vec3::zeros();
    }
    let hit: Option<HitRecord> = world.hit(r, Fixed { v: T_MIN_EPSILON }, Fixed { v: i64::MAX });
    match hit {
        Some(rec) => {
            match rec.mat.scatter(r, &rec) {
                Some((attenuation, scattered)) => {
                    let rec_col: Vec3 = ray_colour(&scattered, world, depth - 1);
                    proof {
                        assert(colour_unit(attenuation));
                        lemma_fmul_unit(attenuation.x.v as int, rec_col.x.v as int);
                        lemma_fmul_unit(attenuation.y.v as int, rec_col.y.v as int);
                        lemma_fmul_unit(attenuation.z.v as int, rec_col.z.v as int);
                    }
                    attenuation.mul(rec_col)
                },
                None => Vec3::zeros(),
            }
        },
        None => background(r),
    }
}

/// The ground: a grey Lambertian sphere of radius one thousand.
pub open spec fn ground_sphere_spec() -> Sphere {
    Sphere {
        centre0: Vec3 { x: Fixed { v: 0 }, y: Fixed { v: -1_000_000_000_000i64 }, z: Fixed { v: 0 } },
        displacement: Vec3 { x: Fixed { v: 0 }, y: Fixed { v: 0 }, z: Fixed { v: 0 } },
        radius: Fixed { v: 1_000_000_000_000 },
        mat: Material::Lambertian {
            albedo: Vec3 {
                x: Fixed { v: 500_000_000 },
                y: Fixed { v: 500_000_000 },
                z: Fixed { v: 500_000_000 },
            },
        },
    }
}

/// The central glass feature sphere.
pub open spec fn glass_feature_spec() -> Sphere {
    Sphere {
        centre0: Vec3 { x: Fixed { v: 0 }, y: Fixed { v: 1_000_000_000 }, z: Fixed { v: 0 } },
        displacement: Vec3 { x: Fixed { v: 0 }, y: Fixed { v: 0 }, z: Fixed { v: 0 } },
        radius: Fixed { v: 1_000_000_000 },
        mat: Material::Dielectric { ir: Fixed { v: 1_500_000_000 } },
    }
}

/// The brown diffuse feature sphere.
pub open spec fn diffuse_feature_spec() -> Sphere {
    Sphere {
        centre0: Vec3 { x: Fixed { v: -4_000_000_000i64 }, y: Fixed { v: 1_000_000_000 }, z: Fixed { v: 0 } },
        displacement: Vec3 { x: Fixed { v: 0 }, y: Fixed { v: 0 }, z: Fixed { v: 0 } },
        radius: Fixed { v: 1_000_000_000 },
        mat: Material::Lambertian {
            albedo: Vec3 {
                x: Fixed { v: 400_000_000 },
                y: Fixed { v: 200_000_000 },
                z: Fixed { v: 100_000_000 },
            },
        },
    }
}

/// The polished metal feature sphere.
pub open spec fn metal_feature_spec() -> Sphere {
    Sphere {
        centre0: Vec3 { x: Fixed { v: 4_000_000_000 }, y: Fixed { v: 1_000_000_000 }, z: Fixed { v: 0 } },
        displacement: Vec3 { x: Fixed { v: 0 }, y: Fixed { v: 0 }, z: Fixed { v: 0 } },
        radius: Fixed { v: 1_000_000_000 },
        mat: Material::Metal {
            albedo: Vec3 {
                x: Fixed { v: 700_000_000 },
                y: Fixed { v: 600_000_000 },
                z: Fixed { v: 500_000_000 },
            },
            fuzz: Fixed { v: 0 },
        },
    }
}

/// The shape every small grid sphere has: radius 0.2, resting on the
/// ground plane (centre y = 0.2), centre x and z inside the jittered
/// grid extent, and one of the three material draws: diffuse with an
/// upward drift in [0, 0.5), metal with fuzz in [0, 0.5), or glass with
/// refraction index 1.5.
pub open spec fn grid_sphere_shape(s: Sphere) -> bool {
    &&& s.radius.v == 200_000_000
    &&& s.centre0.y.v == 200_000_000
    &&& -11_000_000_000 <= s.centre0.x.v <= 11_000_000_000
    &&& -11_000_000_000 <= s.centre0.z.v <= 11_000_000_000
    &&& match s.mat {
        Material::Lambertian { albedo } => {
            &&& colour_unit(albedo)
            &&& s.displacement.x.v == 0
            &&& 0 <= s.displacement.y.v < 500_000_000
            &&& s.displacement.z.v == 0
        },
        Material::Metal { albedo, fuzz } => {
            &&& colour_unit(albedo)
            &&& 0 <= fuzz.v < 500_000_000
            &&& s.displacement == (Vec3 { x: Fixed { v: 0 }, y: Fixed { v: 0 }, z: Fixed { v: 0 } })
        },
        Material::Dielectric { ir } => {
            &&& ir.v == 1_500_000_000
            &&& s.displacement == (Vec3 { x: Fixed { v: 0 }, y: Fixed { v: 0 }, z: Fixed { v: 0 } })
        },
    }
}

/// The grid cells whose jittered centre can come within 0.9 of the
/// anchor point (4, 0.2, 0) and so may be left empty: only the four
/// cells nearest the anchor.
spec fn anchor_cell(a: int, b: int) -> bool {
    (a == 3 || a == 4) && (b == -1 || b == 0)
}

/// Within one anchor row, how many anchor cells lie strictly before
/// column `b`.
spec fn row_specials_before(b: int) -> int {
    if b > 0 {
        2
    } else if b == 0 {
        1
    } else {
        0
    }
}

/// How many anchor cells the row-major grid walk has passed before cell
/// `(a, b)`: at most four.
spec fn specials_before(a: int, b: int) -> int {
    (if a > 3 {
        2int
    } else if a == 3 {
        row_specials_before(b)
    } else {
        0int
    }) + (if a > 4 {
        2int
    } else if a == 4 {
        row_specials_before(b)
    } else {
        0int
    })
}

/// Build the stock scene: the ground sphere, a jittered grid of small
/// random spheres (diffuse, metal or glass, some diffuse ones drifting
/// upward for motion blur), and the three feature spheres. Every grid
/// cell except the four nearest the anchor point is proved to receive a
/// sphere, whatever the draws, so the scene always holds at least 484
/// objects, each of the stated shape.
pub fn random_scene() -> (world: HittableList)
    ensures
        list_wf(world.objects@),
        484 <= world.objects@.len() <= 488,
        forall|i: int|
            1 <= i < world.objects@.len() - 3 ==> grid_sphere_shape(#[trigger] world.objects@[i]),
        world.objects@[0] == ground_sphere_spec(),
        world.objects@[world.objects@.len() - 3] == glass_feature_spec(),
        world.objects@[world.objects@.len() - 2] == diffuse_feature_spec(),
        world.objects@[world.objects@.len() - 1] == metal_feature_spec(),
{
    let mut world: HittableList = HittableList::new_empty();
    let ground_material: Material = Material::Lambertian {
        albedo: Vec3 {
            x: Fixed { v: 500_000_000 },
            y: Fixed { v: 500_000_000 },
            z: Fixed { v: 500_000_000 },
        },
    };
    world.add(
        Sphere::new_stationary(
            Vec3 { x: Fixed { v: 0 }, y: Fixed { v: -1_000_000_000_000i64 }, z: Fixed { v: 0 } },
            Fixed { v: 1_000_000_000_000 },
            ground_material,
        ),
    );
    let mut a: i64 = -11;
    while a < 11
        invariant
            -11 <= a <= 11,
            list_wf(world.objects@),
            1 <= world.objects@.len() <= 1 + (a + 11) * 22,
            world.objects@.len() >= 1 + (a + 11) * 22 - specials_before(a as int, -11),
            world.objects@[0] == ground_sphere_spec(),
            forall|i: int|
                1 <= i < world.objects@.len() ==> grid_sphere_shape(#[trigger] world.objects@[i]),
        decreases 11 - a,
    {
        let mut b: i64 = -11;
        while b < 11
            invariant
                -11 <= a < 11,
                -11 <= b <= 11,
                list_wf(world.objects@),
                1 <= world.objects@.len() <= 1 + (a + 11) * 22 + (b + 11),
                world.objects@.len() >= 1 + (a + 11) * 22 + (b + 11) - specials_before(
                    a as int,
                    b as int,
                ),
                world.objects@[0] == ground_sphere_spec(),
                forall|i: int|
                    1 <= i < world.objects@.len() ==> grid_sphere_shape(
                        #[trigger] world.objects@[i],
                    ),
            decreases 11 - b,
        {
            let choose_mat: Fixed = random_fraction();
            let fx: Fixed = random_fraction();
            let fz: Fixed = random_fraction();
            proof {
                lemma_fmul_unit(900_000_000, fx.v as int);
                lemma_fmul_unit(900_000_000, fz.v as int);
            }
            let jitter_x: Fixed = Fixed { v: 900_000_000 }.mul(fx);
            let jitter_z: Fixed = Fixed { v: 900_000_000 }.mul(fz);
            let centre: Vec3 = Vec3 {
                x: Fixed { v: a * SCALE }.add(jitter_x),
                y: Fixed { v: 200_000_000 },
                z: Fixed { v: b * SCALE }.add(jitter_z),
            };
            let anchor: Vec3 = Vec3 {
                x: Fixed { v: 4_000_000_000 },
                y: Fixed { v: 200_000_000 },
                z: Fixed { v: 0 },
            };
            let diff: Vec3 = centre.sub(anchor);
            let nrm: Fixed = diff.norm();
            proof {
                // Away from the anchor's four cells the jitter cannot
                // bring the centre within the exclusion radius: one of
                // the horizontal offsets is at least a whole unit, so
                // the norm is at least one and the cell is always
                // filled.
                if !anchor_cell(a as int, b as int) {
                    let dx = diff.x.v as int;
                    let dz = diff.z.v as int;
                    assert(dx >= 1_000_000_000 || dx <= -1_100_000_000 || dz >= 1_000_000_000
                        || dz <= -1_100_000_000);
                    assert(dx * dx + diff.y.v * diff.y.v + dz * dz
                        >= 1_000_000_000_000_000_000) by (nonlinear_arith)
                        requires
                            dx >= 1_000_000_000 || dx <= -1_100_000_000 || dz >= 1_000_000_000
                                || dz <= -1_100_000_000,
                            diff.y.v == 0,
                    ;
                    crate::fixed::lemma_tdiv_lower(
                        dx * dx + diff.y.v * diff.y.v + dz * dz,
                        SCALE as int,
                        1_000_000_000,
                    );
                    assert(nrm.v >= 1_000_000_000) by (nonlinear_arith)
                        requires
                            nrm.v >= 0,
                            dot_spec(diff, diff) * (SCALE as int) < (nrm.v + 1) * (nrm.v + 1),
                            dot_spec(diff, diff) >= 1_000_000_000,
                    ;
                }
            }
            if nrm.v > 900_000_000 {
                if choose_mat.v < 750_000_000 {
                    let a1: Vec3 = random_vec3();
                    let a2: Vec3 = random_vec3();
                    proof {
                        lemma_fmul_unit(a1.x.v as int, a2.x.v as int);
                        lemma_fmul_unit(a1.y.v as int, a2.y.v as int);
                        lemma_fmul_unit(a1.z.v as int, a2.z.v as int);
                    }
                    let albedo: Vec3 = a1.mul(a2);
                    let displacement: Vec3 = Vec3 {
                        x: Fixed { v: 0 },
                        y: random_range(Fixed { v: 0 }, Fixed { v: 500_000_000 }),
                        z: Fixed { v: 0 },
                    };
                    world.add(
                        Sphere {
                            centre0: centre,
                            displacement,
                            radius: Fixed { v: 200_000_000 },
                            mat: Material::Lambertian { albedo },
                        },
                    );
                } else if choose_mat.v < 920_000_000 {
                    let albedo: Vec3 = random_vec3();
                    let fuzz: Fixed = random_range(Fixed { v: 0 }, Fixed { v: 500_000_000 });
                    world.add(
                        Sphere {
                            centre0: centre,
                            displacement: Vec3::zeros(),
                            radius: Fixed { v: 200_000_000 },
                            mat: Material::Metal { albedo, fuzz },
                        },
                    );
                } else {
                    world.add(
                        Sphere {
                            centre0: centre,
                            displacement: Vec3::zeros(),
                            radius: Fixed { v: 200_000_000 },
                            mat: Material::Dielectric { ir: Fixed { v: 1_500_000_000 } },
                        },
                    );
                }
            }
            b = b + 1;
        }
        a = a + 1;
    }
    world.add(
        Sphere::new_stationary(
            Vec3 { x: Fixed { v: 0 }, y: Fixed { v: 1_000_000_000 }, z: Fixed { v: 0 } },
            Fixed { v: 1_000_000_000 },
            Material::Dielectric { ir: Fixed { v: 1_500_000_000 } },
        ),
    );
    world.add(
        Sphere::new_stationary(
            Vec3 { x: Fixed { v: -4_000_000_000i64 }, y: Fixed { v: 1_000_000_000 }, z: Fixed { v: 0 } },
            Fixed { v: 1_000_000_000 },
            Material::Lambertian {
                albedo: Vec3 {
                    x: Fixed { v: 400_000_000 },
                    y: Fixed { v: 200_000_000 },
                    z: Fixed { v: 100_000_000 },
                },
            },
        ),
    );
    world.add(
        Sphere::new_stationary(
            Vec3 { x: Fixed { v: 4_000_000_000 }, y: Fixed { v: 1_000_000_000 }, z: Fixed { v: 0 } },
            Fixed { v: 1_000_000_000 },
            Material::Metal {
                albedo: Vec3 {
                    x: Fixed { v: 700_000_000 },
                    y: Fixed { v: 600_000_000 },
                    z: Fixed { v: 500_000_000 },
                },
                fuzz: Fixed { v: 0 },
            },
        ),
    );
    world
}

/// The colour channels of `c` lie inside `[0, n]` (scaled).
pub open spec fn colour_sum_bounded(c: Vec3, n: int) -> bool {
    &&& 0 <= c.x.v <= n * (SCALE as int)
    &&& 0 <= c.y.v <= n * (SCALE as int)
    &&& 0 <= c.z.v <= n * (SCALE as int)
}

/// `r` is the jittered coordinate `(idx + f) / (extent - 1)` for the
/// fraction `f`, as the fixed-point division computes it.
pub open spec fn jitter_rel(idx: int, extent: int, f: int, r: int) -> bool {
    &&& 0 <= f < SCALE as int
    &&& r == fdiv(idx * (SCALE as int) + f, (extent - 1) * (SCALE as int))
}

/// The componentwise channel sums of a sequence of colours.
pub open spec fn channel_sums(s: Seq<Vec3>) -> (int, int, int)
    decreases s.len(),
{
    if s.len() == 0 {
        (0, 0, 0)
    } else {
        let p = channel_sums(s.drop_last());
        (p.0 + s.last().x.v, p.1 + s.last().y.v, p.2 + s.last().z.v)
    }
}

/// `c` is the channelwise sum of `n` samples, each a radiance estimate
/// with every channel inside the unit interval.
pub open spec fn is_sample_sum(samples: Seq<Vec3>, n: int, c: Vec3) -> bool {
    &&& samples.len() == n
    &&& (forall|k: int| 0 <= k < samples.len() ==> colour_unit(#[trigger] samples[k]))
    &&& c.x.v == channel_sums(samples).0
    &&& c.y.v == channel_sums(samples).1
    &&& c.z.v == channel_sums(samples).2
}

/// The sky's blue channel is exactly one, whatever the ray: the gradient
/// interpolates between white and a colour whose blue channel is one,
/// and scaling by one is exact.
pub proof fn lemma_background_blue(r: Ray)
    ensures
        background_spec(r).z.v == SCALE as int,
{
    let unit = normalize_spec(r.direction);
    let tt = fmul(unit.y.v + (SCALE as int), 500_000_000);
    crate::fixed::lemma_fmul_scale_identity((SCALE as int) - tt);
    crate::fixed::lemma_fmul_scale_identity(tt);
}

/// What the driver guarantees of one stored pixel: bounded, a sum of
/// `spp` unit-interval samples, and, over an empty scene with at least
/// one bounce allowed, every sample is the sky, whose blue channel is
/// exactly one.
pub open spec fn rendered_pixel_ok(c: Vec3, spp: int, scene_len: int, depth: int) -> bool {
    &&& colour_sum_bounded(c, spp)
    &&& exists|samples: Seq<Vec3>| is_sample_sum(samples, spp, c)
    &&& (scene_len == 0 && depth >= 1 ==> c.z.v == spp * (SCALE as int))
}

/// A jittered normalized image coordinate: `(idx + f) / (extent - 1)`
/// for a freshly drawn fraction `f` in `[0, 1)`; it lies in `[0, 2]`.
fn jitter_coordinate(idx: u32, extent: u32) -> (r: Fixed)
    requires
        idx < extent,
        2 <= extent <= 20_000,
    ensures
        0 <= r.v <= 2 * (SCALE as int),
        exists|f: int| jitter_rel(idx as int, extent as int, f, r.v as int),
{
    let f: Fixed = random_fraction();
    let numer: Fixed = Fixed { v: (idx as i64) * SCALE + f.v };
    let denom: Fixed = Fixed { v: ((extent - 1) as i64) * SCALE };
    proof {
        lemma_tdiv_le(numer.v * (SCALE as int), denom.v as int, 2_000_000_000);
    }
    let r: Fixed = numer.div(denom);
    assert(jitter_rel(idx as int, extent as int, f.v as int, r.v as int));
    r
}

/// One pixel's radiance: the sum of `samples_per_pixel` independent
/// estimates through jittered coordinates. The sum is unnormalized;
/// every channel lies in `[0, samples_per_pixel]` (scaled).
pub fn render_pixel(
    cam: &Camera,
    world: &HittableList,
    i: u32,
    j: u32,
    image_width: u32,
    image_height: u32,
    samples_per_pixel: u32,
    max_depth: u32,
) -> (c: Vec3)
    requires
        camera_wf(*cam),
        list_wf(world.objects@),
        i < image_width,
        j < image_height,
        2 <= image_width <= 10_000,
        2 <= image_height <= 20_000,
        samples_per_pixel <= 100_000,
    ensures
        colour_sum_bounded(c, samples_per_pixel as int),
        rendered_pixel_ok(
            c,
            samples_per_pixel as int,
            world.objects@.len() as int,
            max_depth as int,
        ),
{
    let mut pixel_colour: Vec3 = Vec3::zeros();
    let ghost mut samples: Seq<Vec3> = Seq::empty();
    let mut s: u32 = 0;
    while s < samples_per_pixel
        invariant
            s <= samples_per_pixel <= 100_000,
            camera_wf(*cam),
            list_wf(world.objects@),
            i < image_width,
            j < image_height,
            2 <= image_width <= 10_000,
            2 <= image_height <= 20_000,
            colour_sum_bounded(pixel_colour, s as int),
            is_sample_sum(samples, s as int, pixel_colour),
            world.objects@.len() == 0 && max_depth >= 1 ==> pixel_colour.z.v == (s as int) * (
            SCALE as int),
        decreases samples_per_pixel - s,
    {
        let u: Fixed = jitter_coordinate(i, image_width);
        let v: Fixed = jitter_coordinate(j, image_height);
        let r: Ray = cam.get_ray(u, v);
        let sample: Vec3 = ray_colour(&r, world, max_depth);
        proof {
            if world.objects@.len() == 0 && max_depth >= 1 {
                assert(list_hit_spec(
                    world.objects@,
                    r,
                    T_MIN_EPSILON as int,
                    i64::MAX as int,
                ) is None);
                lemma_background_blue(r);
            }
        }
        pixel_colour = pixel_colour.add(sample);
        proof {
            let pushed = samples.push(sample);
            assert(pushed.drop_last() =~= samples);
            assert(pushed.last() == sample);
            samples = pushed;
        }
        s = s + 1;
    }
    assert(is_sample_sum(samples, samples_per_pixel as int, pixel_colour));
    pixel_colour
}

/// The height of the image: the width divided by the aspect ratio.
pub fn image_height(settings: &Settings) -> (h: u64)
    requires
        0 < settings.aspect_ratio.v,
        settings.width <= 10_000,
    ensures
        h as int == tdiv(
            (settings.width as int) * (SCALE as int),
            settings.aspect_ratio.v as int,
        ),
{
    let n: i128 = (settings.width as i128) * (SCALE as i128);
    proof {
        lemma_tdiv_le(
            (settings.width as int) * (SCALE as int),
            settings.aspect_ratio.v as int,
            10_000_000_000_000,
        );
        assert((settings.width as int) * (SCALE as int) >= 0) by (nonlinear_arith)
            requires
                settings.width >= 0,
        ;
    }
    let q: i128 = crate::fixed::tdiv128(n, settings.aspect_ratio.v as i128);
    q as u64
}

/// Render the whole image, row by row: an `image_height x image_width`
/// matrix of summed pixel colours, and one pixel event per pixel, in
/// row-major order: the event at index `j * image_width + i` carries the
/// coordinates `(i, j)` and exactly the colour stored at `matrix[j][i]`.
#[verifier::rlimit(100)]
pub fn render(settings: &Settings, world: &HittableList, cam: &Camera) -> (out: (
    Vec<Vec<Vec3>>,
    Vec<ColourPosition>,
))
    requires
        settings_wf(*settings),
        camera_wf(*cam),
        list_wf(world.objects@),
        2 <= tdiv((settings.width as int) * (SCALE as int), settings.aspect_ratio.v as int)
            <= 20_000,
    ensures
        ({
            let w = settings.width as int;
            let h = tdiv((settings.width as int) * (SCALE as int), settings.aspect_ratio.v as int);
            let spp = settings.samples_per_pixel as int;
            let matrix = out.0@;
            let events = out.1@;
            &&& matrix.len() == h
            &&& forall|jj: int| 0 <= jj < h ==> (#[trigger] matrix[jj])@.len() == w
            &&& forall|jj: int, ii: int|
                0 <= jj < h && 0 <= ii < w ==> rendered_pixel_ok(
                    #[trigger] matrix[jj]@[ii],
                    spp,
                    world.objects@.len() as int,
                    settings.max_depth as int,
                )
            &&& events.len() == h * w
            &&& forall|k: int|
                0 <= k < h * w ==> {
                    &&& (#[trigger] events[k]).point.0 == k % w
                    &&& events[k].point.1 == k / w
                    &&& events[k].colour == matrix[k / w]@[k % w]
                }
        }),
{
    let w: u32 = settings.width;
    let h64: u64 = image_height(settings);
    let h: u32 = h64 as u32;
    let ghost hh = h as int;
    let ghost ww = w as int;
    let ghost spp = settings.samples_per_pixel as int;
    let mut matrix: Vec<Vec<Vec3>> = Vec::new();
    let mut events: Vec<ColourPosition> = Vec::new();
    let mut j: u32 = 0;
    while j < h
        invariant
            j <= h,
            hh == h as int,
            ww == w as int,
            spp == settings.samples_per_pixel as int,
            2 <= h <= 20_000,
            2 <= w <= 10_000,
            settings_wf(*settings),
            camera_wf(*cam),
            list_wf(world.objects@),
            matrix@.len() == j as int,
            events@.len() == (j as int) * ww,
            forall|jj: int| 0 <= jj < j ==> (#[trigger] matrix@[jj])@.len() == ww,
            forall|jj: int, ii: int|
                0 <= jj < j && 0 <= ii < ww ==> rendered_pixel_ok(
                    #[trigger] matrix@[jj]@[ii],
                    spp,
                    world.objects@.len() as int,
                    settings.max_depth as int,
                ),
            forall|k: int|
                0 <= k < (j as int) * ww ==> {
                    &&& (#[trigger] events@[k]).point.0 == k % ww
                    &&& events@[k].point.1 == k / ww
                    &&& events@[k].colour == matrix@[k / ww]@[k % ww]
                },
        decreases h - j,
    {
        let mut row: Vec<Vec3> = Vec::new();
        let mut i: u32 = 0;
        while i < w
            invariant
                i <= w,
                j < h,
                hh == h as int,
                ww == w as int,
                spp == settings.samples_per_pixel as int,
                2 <= h <= 20_000,
                2 <= w <= 10_000,
                settings_wf(*settings),
                camera_wf(*cam),
                list_wf(world.objects@),
                matrix@.len() == j as int,
                row@.len() == i as int,
                events@.len() == (j as int) * ww + i as int,
                forall|jj: int| 0 <= jj < j ==> (#[trigger] matrix@[jj])@.len() == ww,
                forall|jj: int, ii: int|
                    0 <= jj < j && 0 <= ii < ww ==> rendered_pixel_ok(
                        #[trigger] matrix@[jj]@[ii],
                        spp,
                        world.objects@.len() as int,
                        settings.max_depth as int,
                    ),
                forall|ii: int|
                    0 <= ii < i ==> rendered_pixel_ok(
                        #[trigger] row@[ii],
                        spp,
                        world.objects@.len() as int,
                        settings.max_depth as int,
                    ),
                forall|k: int|
                    0 <= k < (j as int) * ww ==> {
                        &&& (#[trigger] events@[k]).point.0 == k % ww
                        &&& events@[k].point.1 == k / ww
                        &&& events@[k].colour == matrix@[k / ww]@[k % ww]
                    },
                forall|k: int|
                    (j as int) * ww <= k < (j as int) * ww + i as int ==> {
                        &&& (#[trigger] events@[k]).point.0 == k - (j as int) * ww
                        &&& events@[k].point.1 == j as int
                        &&& events@[k].colour == row@[k - (j as int) * ww]
                    },
            decreases w - i,
        {
            let pixel_colour: Vec3 = render_pixel(
                cam,
                world,
                i,
                j,
                w,
                h,
                settings.samples_per_pixel,
                settings.max_depth,
            );
            row.push(pixel_colour);
            events.push(ColourPosition { colour: pixel_colour, point: (i, j) });
            i = i + 1;
        }
        matrix.push(row);
        proof {
            assert(((j as int) + 1) * ww == (j as int) * ww + ww) by (nonlinear_arith);
            assert forall|k: int| 0 <= k < ((j as int) + 1) * ww implies {
                &&& (#[trigger] events@[k]).point.0 == k % ww
                &&& events@[k].point.1 == k / ww
                &&& events@[k].colour == matrix@[k / ww]@[k % ww]
            } by {
                if k < (j as int) * ww {
                    vstd::arithmetic::div_mod::lemma_fundamental_div_mod(k, ww);
                    vstd::arithmetic::div_mod::lemma_mod_bound(k, ww);
                    assert(0 <= k / ww < j as int) by (nonlinear_arith)
                        requires
                            0 <= k < (j as int) * ww,
                            ww >= 2,
                            k == ww * (k / ww) + k % ww,
                            0 <= k % ww < ww,
                    ;
                } else {
                    vstd::arithmetic::div_mod::lemma_fundamental_div_mod_converse(
                        k,
                        ww,
                        j as int,
                        k - (j as int) * ww,
                    );
                }
            }
        }
        j = j + 1;
    }
    (matrix, events)
}

} // verus!
