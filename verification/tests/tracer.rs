//! The estimator, the camera, the scene generator and the render driver.

use raytracing::fixed::{Fixed, SCALE};
use raytracing::vec3::Vec3;
use raytracing::ray::Ray;
use raytracing::hittable::Sphere;
use raytracing::hittable_list::HittableList;
use raytracing::material::Material;
use raytracing::camera::Camera;
use raytracing::config::Settings;
use raytracing::raytracer::{background, image_height, random_scene, ray_colour, render,
    render_pixel};

fn fx(v: i64) -> Fixed {
    Fixed { v }
}

fn v3(x: i64, y: i64, z: i64) -> Vec3 {
    Vec3 { x: Fixed { v: x }, y: Fixed { v: y }, z: Fixed { v: z } }
}

fn one_sphere_world() -> HittableList {
    HittableList::from_hittable(
        Sphere::new_stationary(
            v3(0, 0, -SCALE),
            fx(500_000_000),
            Material::Lambertian { albedo: v3(500_000_000, 500_000_000, 500_000_000) },
        ),
    )
}

#[test]
fn background_gradient_endpoints() {
    // Straight up: t = 1, the pale blue; straight down: t = 0, white.
    let up: Ray = Ray::new(v3(0, 0, 0), v3(0, SCALE, 0), fx(0));
    assert_eq!(background(&up), v3(500_000_000, 700_000_000, SCALE));
    let down: Ray = Ray::new(v3(0, 0, 0), v3(0, -SCALE, 0), fx(0));
    assert_eq!(background(&down), v3(SCALE, SCALE, SCALE));
}

#[test]
fn miss_returns_the_background() {
    // The ray along +x misses the sphere at (0, 0, -1): the discriminant
    // is negative and the estimate is exactly the horizon gradient.
    let world: HittableList = one_sphere_world();
    let r: Ray = Ray::new(v3(0, 0, 0), v3(SCALE, 0, 0), fx(0));
    assert!(world.hit(&r, fx(0), fx(i64::MAX)).is_none());
    let c: Vec3 = ray_colour(&r, &world, 5);
    assert_eq!(c, v3(750_000_000, 850_000_000, SCALE));
    assert_eq!(c, background(&r));
}

#[test]
fn depth_zero_is_black() {
    let world: HittableList = one_sphere_world();
    let r: Ray = Ray::new(v3(0, 0, 0), v3(0, 0, -SCALE), fx(0));
    assert_eq!(ray_colour(&r, &world, 0), Vec3::zeros());
}

#[test]
fn radiance_never_exceeds_the_sky() {
    // Whatever the random bounces do, every channel of the estimate
    // stays inside [0, 1].
    let world: HittableList = one_sphere_world();
    let mut k: i64 = -4;
    while k <= 4 {
        let r: Ray = Ray::new(v3(0, 0, 0), v3(k * 250_000_000, 100_000_000, -SCALE), fx(0));
        let c: Vec3 = ray_colour(&r, &world, 10);
        assert!(0 <= c.x.v && c.x.v <= SCALE);
        assert!(0 <= c.y.v && c.y.v <= SCALE);
        assert!(0 <= c.z.v && c.z.v <= SCALE);
        k += 1;
    }
}

#[test]
fn pinhole_camera_rays_start_at_the_origin() {
    // With aperture zero the lens offset vanishes for every sample.
    let lookfrom: Vec3 = v3(13_000_000_000, 2_000_000_000, 3_000_000_000);
    let cam: Camera = Camera::new(
        lookfrom,
        v3(0, 0, 0),
        v3(0, SCALE, 0),
        fx(20_000_000_000),
        fx(1_500_000_000),
        fx(0),
        fx(10_000_000_000),
    );
    assert_eq!(cam.origin, lookfrom);
    assert_eq!(cam.lens_radius.v, 0);
    let mut k: i64 = 0;
    while k < 10 {
        let r: Ray = cam.get_ray(fx(300_000_000), fx(700_000_000));
        assert_eq!(r.origin, lookfrom);
        assert_eq!(r.time.v, 0);
        k += 1;
    }
}

#[test]
fn thin_lens_rays_hit_the_focal_target() {
    // Whatever the lens draw, the point the ray reaches at parameter one
    // is the focal-plane target, and the origin is jittered by at most
    // a few lens radii per component.
    let cam: Camera = Camera::new(
        v3(13_000_000_000, 2_000_000_000, 3_000_000_000),
        v3(0, 0, 0),
        v3(0, SCALE, 0),
        fx(20_000_000_000),
        fx(1_500_000_000),
        fx(2_000_000_000),
        fx(10_000_000_000),
    );
    let s: Fixed = fx(250_000_000);
    let t: Fixed = fx(750_000_000);
    let target = cam.lower_left_corner.add(cam.horizontal.scale(s)).add(cam.vertical.scale(t));
    let mut k: i64 = 0;
    while k < 10 {
        let r = cam.get_ray(s, t);
        assert_eq!(r.at(fx(SCALE)), target);
        assert!((r.origin.x.v - cam.origin.x.v).abs() <= 3 * cam.lens_radius.v);
        assert!((r.origin.y.v - cam.origin.y.v).abs() <= 3 * cam.lens_radius.v);
        assert!((r.origin.z.v - cam.origin.z.v).abs() <= 3 * cam.lens_radius.v);
        k += 1;
    }
}

#[test]
fn aperture_halves_into_the_lens_radius() {
    let cam: Camera = Camera::new(
        v3(13_000_000_000, 2_000_000_000, 3_000_000_000),
        v3(0, 0, 0),
        v3(0, SCALE, 0),
        fx(20_000_000_000),
        fx(1_500_000_000),
        fx(100_000_000),
        fx(10_000_000_000),
    );
    assert_eq!(cam.lens_radius.v, 50_000_000);
}

#[test]
fn default_settings_match_the_stock_configuration() {
    let s: Settings = Settings::default();
    assert_eq!(s.lookfrom, v3(13_000_000_000, 2_000_000_000, 3_000_000_000));
    assert_eq!(s.lookat, v3(0, 0, 0));
    assert_eq!(s.vup, v3(0, SCALE, 0));
    assert_eq!(s.vfov.v, 20_000_000_000);
    assert_eq!(s.aspect_ratio.v, 1_500_000_000);
    assert_eq!(s.aperture.v, 100_000_000);
    assert_eq!(s.focus_distance.v, 10_000_000_000);
    assert_eq!(s.samples_per_pixel, 50);
    assert_eq!(s.max_depth, 30);
    assert_eq!(s.width, 800);
    assert!(s.check_wf());
}

#[test]
fn image_height_follows_the_aspect_ratio() {
    let s: Settings = Settings::default();
    assert_eq!(image_height(&s), 533);
}

#[test]
fn random_scene_has_ground_and_feature_spheres() {
    let world: HittableList = random_scene();
    assert!(world.check_wf());
    let n: usize = world.objects.len();
    // Only the four grid cells nearest the anchor can come out empty.
    assert!(n >= 484 && n <= 488);
    // Every grid sphere rests on the ground with radius 0.2 and one of
    // the three material draws.
    let mut k: usize = 1;
    while k < n - 3 {
        let s: &Sphere = &world.objects[k];
        assert_eq!(s.radius.v, 200_000_000);
        assert_eq!(s.centre0.y.v, 200_000_000);
        assert!(s.centre0.x.v.abs() <= 11_000_000_000);
        assert!(s.centre0.z.v.abs() <= 11_000_000_000);
        match s.mat {
            Material::Lambertian { albedo } => {
                assert!(0 <= albedo.x.v && albedo.x.v <= SCALE);
                assert!(0 <= s.displacement.y.v && s.displacement.y.v < 500_000_000);
            },
            Material::Metal { albedo, fuzz } => {
                assert!(0 <= albedo.y.v && albedo.y.v <= SCALE);
                assert!(0 <= fuzz.v && fuzz.v < 500_000_000);
            },
            Material::Dielectric { ir } => {
                assert_eq!(ir.v, 1_500_000_000);
            },
        }
        k += 1;
    }
    let ground: &Sphere = &world.objects[0];
    assert_eq!(ground.centre0, v3(0, -1_000_000_000_000, 0));
    assert_eq!(ground.radius.v, 1_000_000_000_000);
    assert_eq!(
        ground.mat,
        Material::Lambertian { albedo: v3(500_000_000, 500_000_000, 500_000_000) },
    );
    assert_eq!(world.objects[n - 3].mat, Material::Dielectric { ir: fx(1_500_000_000) });
    assert_eq!(world.objects[n - 3].centre0, v3(0, SCALE, 0));
    assert_eq!(
        world.objects[n - 2].mat,
        Material::Lambertian { albedo: v3(400_000_000, 200_000_000, 100_000_000) },
    );
    assert_eq!(
        world.objects[n - 1].mat,
        Material::Metal { albedo: v3(700_000_000, 600_000_000, 500_000_000), fuzz: fx(0) },
    );
    assert_eq!(world.objects[n - 1].centre0, v3(4_000_000_000, SCALE, 0));
}

#[test]
fn render_pixel_sums_stay_bounded() {
    let world: HittableList = one_sphere_world();
    let cam: Camera = Camera::new(
        v3(0, 0, SCALE),
        v3(0, 0, 0),
        v3(0, SCALE, 0),
        fx(90_000_000_000),
        fx(1_000_000_000),
        fx(0),
        fx(1_000_000_000),
    );
    let c: Vec3 = render_pixel(&cam, &world, 1, 1, 4, 4, 8, 5);
    assert!(0 <= c.x.v && c.x.v <= 8 * SCALE);
    assert!(0 <= c.y.v && c.y.v <= 8 * SCALE);
    assert!(0 <= c.z.v && c.z.v <= 8 * SCALE);
}

#[test]
fn render_of_an_empty_scene_is_pure_sky() {
    // With nothing to hit every sample is the sky, whose blue channel is
    // exactly one, so every pixel's blue sum is exactly the sample count.
    let mut settings: Settings = Settings::default();
    settings.width = 4;
    settings.aspect_ratio = fx(2_000_000_000);
    settings.samples_per_pixel = 3;
    settings.max_depth = 2;
    assert!(settings.check_wf());
    let world: HittableList = HittableList::new_empty();
    let cam: Camera = Camera::new(
        settings.lookfrom,
        settings.lookat,
        settings.vup,
        settings.vfov,
        settings.aspect_ratio,
        settings.aperture,
        settings.focus_distance,
    );
    let (matrix, _) = render(&settings, &world, &cam);
    for row in &matrix {
        for pixel in row {
            assert_eq!(pixel.z.v, 3 * SCALE);
            assert!(0 <= pixel.x.v && pixel.x.v <= 3 * SCALE);
        }
    }
}

#[test]
fn render_emits_one_event_per_pixel_in_order() {
    let mut settings: Settings = Settings::default();
    settings.width = 4;
    settings.aspect_ratio = fx(2_000_000_000);
    settings.samples_per_pixel = 2;
    settings.max_depth = 3;
    settings.aperture = fx(0);
    assert!(settings.check_wf());
    assert_eq!(image_height(&settings), 2);
    let world: HittableList = one_sphere_world();
    let cam: Camera = Camera::new(
        settings.lookfrom,
        settings.lookat,
        settings.vup,
        settings.vfov,
        settings.aspect_ratio,
        settings.aperture,
        settings.focus_distance,
    );
    let (matrix, events) = render(&settings, &world, &cam);
    assert_eq!(matrix.len(), 2);
    for row in &matrix {
        assert_eq!(row.len(), 4);
    }
    assert_eq!(events.len(), 8);
    for (k, ev) in events.iter().enumerate() {
        let i: u32 = (k % 4) as u32;
        let j: u32 = (k / 4) as u32;
        assert_eq!(ev.point, (i, j));
        assert_eq!(ev.colour, matrix[j as usize][i as usize]);
        assert!(0 <= ev.colour.x.v && ev.colour.x.v <= 2 * SCALE);
        assert!(0 <= ev.colour.y.v && ev.colour.y.v <= 2 * SCALE);
        assert!(0 <= ev.colour.z.v && ev.colour.z.v <= 2 * SCALE);
    }
}
