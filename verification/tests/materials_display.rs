//! Materials, sampling, display conversion and the viewer state.

use raytracing::fixed::{Fixed, SCALE};
use raytracing::vec3::Vec3;
use raytracing::ray::Ray;
use raytracing::hittable::{HitRecord, Sphere};
use raytracing::material::{reflectance, Material};
use raytracing::sampling::{rand_in_unit_disk, rand_in_unit_sphere, rand_unit_vector,
    random_fraction, random_range, random_vec3, random_vec3_range, rand_in_hemisphere};
use raytracing::colour::{draw, drawn_colour, drawn_colour_with_alpha, plot_pixel};
use raytracing::raytracer::ColourPosition;
use raytracing::viewer::ViewerState;

fn fx(v: i64) -> Fixed {
    Fixed { v }
}

fn v3(x: i64, y: i64, z: i64) -> Vec3 {
    Vec3 { x: Fixed { v: x }, y: Fixed { v: y }, z: Fixed { v: z } }
}

fn hit_record_for(normal: Vec3, front_face: bool, mat: Material) -> HitRecord {
    HitRecord { p: v3(0, 0, -500_000_000), t: fx(500_000_000), normal, front_face, mat }
}

#[test]
fn schlick_reflectance_at_normal_incidence() {
    // cos = 1, ir = 1.5: r0 = ((1 - 1.5) / (1 + 1.5))^2 = 0.04 exactly,
    // and the angular term vanishes.
    let r: Fixed = reflectance(fx(SCALE), fx(1_500_000_000));
    assert_eq!(r.v, 40_000_000);
}

#[test]
fn lambertian_attenuation_is_exactly_the_albedo() {
    let albedo: Vec3 = v3(300_000_000, 600_000_000, 900_000_000);
    let mat: Material = Material::Lambertian { albedo };
    let rec: HitRecord = hit_record_for(v3(0, 0, SCALE), true, mat);
    let r_in: Ray = Ray::new(v3(0, 0, 0), v3(0, 0, -SCALE), fx(0));
    let mut k: i64 = 0;
    while k < 20 {
        let (att, scattered) = mat.scatter(&r_in, &rec).unwrap();
        assert_eq!(att, albedo);
        assert!(att.x.v <= albedo.x.v && att.y.v <= albedo.y.v && att.z.v <= albedo.z.v);
        assert_eq!(scattered.origin, rec.p);
        k += 1;
    }
}

#[test]
fn metal_scatter_leaves_the_surface_or_absorbs() {
    let mat: Material = Material::Metal {
        albedo: v3(700_000_000, 600_000_000, 500_000_000),
        fuzz: fx(SCALE),
    };
    let rec: HitRecord = hit_record_for(v3(0, 0, SCALE), true, mat);
    let r_in: Ray = Ray::new(v3(0, 0, 0), v3(0, 0, -SCALE), fx(0));
    let mut k: i64 = 0;
    while k < 50 {
        if let Some((att, scattered)) = mat.scatter(&r_in, &rec) {
            assert_eq!(att, v3(700_000_000, 600_000_000, 500_000_000));
            // Accepted only when the fuzzed reflection leaves the surface.
            assert!(scattered.direction.dot(&rec.normal).v > 0);
        }
        k += 1;
    }
}

#[test]
fn polished_metal_reflects_exactly() {
    let mat: Material = Material::Metal {
        albedo: v3(700_000_000, 600_000_000, 500_000_000),
        fuzz: fx(0),
    };
    let rec: HitRecord = hit_record_for(v3(0, SCALE, 0), true, mat);
    let r_in: Ray = Ray::new(v3(0, SCALE, 0), v3(SCALE, -SCALE, 0), fx(0));
    let (_, scattered) = mat.scatter(&r_in, &rec).unwrap();
    // The unit incident direction is (0.707…, -0.707…, 0); fuzz zero
    // keeps the mirrored direction exactly.
    let unit: Vec3 = r_in.direction.normalize();
    let expected: Vec3 = unit.reflect(&rec.normal);
    assert_eq!(scattered.direction, expected);
    assert!(scattered.direction.y.v > 0);
}

#[test]
fn dielectric_always_scatters_with_unit_attenuation() {
    let mat: Material = Material::Dielectric { ir: fx(1_500_000_000) };
    let rec: HitRecord = hit_record_for(v3(0, 0, SCALE), true, mat);
    let r_in: Ray = Ray::new(v3(0, 0, 0), v3(0, 0, -SCALE), fx(0));
    let mut k: i64 = 0;
    while k < 20 {
        let (att, scattered) = mat.scatter(&r_in, &rec).unwrap();
        assert_eq!(att, v3(SCALE, SCALE, SCALE));
        assert_eq!(scattered.origin, rec.p);
        k += 1;
    }
}

#[test]
fn total_internal_reflection_forces_a_mirror() {
    // From inside the glass (back face, ratio 1.5) at sin = 0.8 the
    // refracted direction cannot exist: 1.5 * 0.8 > 1, so every draw
    // reflects, exactly.
    let mat: Material = Material::Dielectric { ir: fx(1_500_000_000) };
    let rec: HitRecord = hit_record_for(v3(0, SCALE, 0), false, mat);
    let r_in: Ray = Ray::new(v3(0, SCALE, 0), v3(800_000_000, -600_000_000, 0), fx(0));
    let mut k: i64 = 0;
    while k < 20 {
        let (att, scattered) = mat.scatter(&r_in, &rec).unwrap();
        assert_eq!(att, v3(SCALE, SCALE, SCALE));
        assert_eq!(scattered.direction, v3(800_000_000, 600_000_000, 0));
        k += 1;
    }
}

#[test]
fn sampling_respects_its_ranges() {
    let mut k: i64 = 0;
    while k < 50 {
        let f: Fixed = random_fraction();
        assert!(0 <= f.v && f.v < SCALE);
        let r: Fixed = random_range(fx(-2 * SCALE), fx(3 * SCALE));
        assert!(-2 * SCALE <= r.v && r.v < 3 * SCALE);
        let v: Vec3 = random_vec3();
        assert!(0 <= v.x.v && v.x.v < SCALE);
        let vr: Vec3 = random_vec3_range(fx(-SCALE), fx(SCALE));
        assert!(-SCALE <= vr.y.v && vr.y.v < SCALE);
        let p: Vec3 = rand_in_unit_sphere();
        assert!(p.norm_squared().v < SCALE);
        let d: Vec3 = rand_in_unit_disk();
        assert_eq!(d.z.v, 0);
        assert!(d.norm_squared().v < SCALE);
        let u: Vec3 = rand_unit_vector();
        assert!(u.x.v.abs() <= SCALE && u.y.v.abs() <= SCALE && u.z.v.abs() <= SCALE);
        // The normalized sample's squared norm is within half a
        // microunit of one.
        let un: i64 = u.norm_squared().v;
        assert!(SCALE - 500 <= un && un <= SCALE + 500);
        let h: Vec3 = rand_in_hemisphere(&v3(0, SCALE, 0));
        assert!(h.norm_squared().v < SCALE);
        assert!(h.dot(&v3(0, SCALE, 0)).v >= 0);
        k += 1;
    }
}

#[test]
fn drawn_colour_quarter_grey() {
    // A summed channel of 1.0 over four samples averages to 0.25; gamma
    // correction takes the square root, 0.5, and 256 * 0.5 = 128.
    let sum: Vec3 = v3(SCALE, SCALE, SCALE);
    assert_eq!(drawn_colour(sum, 4), (128, 128, 128));
}

#[test]
fn drawn_colour_clamps_bright_channels() {
    // An average of 1.0 clamps at 0.999: 256 * 0.999 truncates to 255.
    let sum: Vec3 = v3(4 * SCALE, 0, 4 * SCALE);
    assert_eq!(drawn_colour(sum, 4), (255, 0, 255));
}

#[test]
fn drawn_colour_alpha_is_opaque() {
    let rgba: (u8, u8, u8, u8) = drawn_colour_with_alpha(v3(SCALE, SCALE, SCALE), 4);
    assert_eq!(rgba, (128, 128, 128, 0xFF));
}

#[test]
fn plot_pixel_writes_the_unflipped_row() {
    // A 2x2 frame: pixel (0, 0) lands in the second row of the buffer,
    // at byte offset (0 + 1 * 2) * 4 = 8.
    let mut frame: Vec<u8> = vec![0u8; 16];
    let colour: Vec<u8> = vec![10u8, 20u8, 30u8, 255u8];
    plot_pixel(&mut frame, 0, 0, &colour, 2, 2);
    assert_eq!(&frame[8..12], &[10, 20, 30, 255]);
    assert_eq!(&frame[0..8], &[0; 8]);
    assert_eq!(&frame[12..16], &[0; 4]);
}

#[test]
fn draw_plots_a_whole_batch() {
    let mut frame: Vec<u8> = vec![0u8; 16];
    let batch: Vec<ColourPosition> = vec![
        ColourPosition { colour: v3(SCALE, SCALE, SCALE), point: (0, 0) },
        ColourPosition { colour: v3(4 * SCALE, 0, 0), point: (1, 1) },
    ];
    draw(&mut frame, &batch, 4, 2, 2);
    // (0, 0) unflips to offset 8; (1, 1) unflips to offset 4.
    assert_eq!(&frame[8..12], &[128, 128, 128, 255]);
    assert_eq!(&frame[4..8], &[255, 0, 0, 255]);
}

#[test]
fn viewer_state_batches_and_completes() {
    let mut state: ViewerState = ViewerState::new(2);
    assert!(state.wants_more());
    state.accept_pixel(ColourPosition { colour: v3(0, 0, 0), point: (0, 0) });
    assert!(state.wants_more());
    state.accept_pixel(ColourPosition { colour: v3(0, 0, 0), point: (1, 0) });
    // The batch is full: the loop should stop polling and redraw.
    assert!(!state.wants_more());
    let batch: Vec<ColourPosition> = state.take_batch();
    assert_eq!(batch.len(), 2);
    assert!(state.wants_more());
    // Completion stops polling for good and appends the leftovers.
    state.complete(vec![ColourPosition { colour: v3(0, 0, 0), point: (0, 1) }]);
    assert!(!state.wants_more());
    let rest: Vec<ColourPosition> = state.take_batch();
    assert_eq!(rest.len(), 1);
    assert_eq!(rest[0].point, (0, 1));
}
