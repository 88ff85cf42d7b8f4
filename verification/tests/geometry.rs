//! Geometry: vectors, rays, sphere intersection.

use raytracing::fixed::{Fixed, SCALE};
use raytracing::vec3::Vec3;
use raytracing::ray::Ray;
use raytracing::hittable::{HitRecord, Sphere};
use raytracing::hittable_list::HittableList;
use raytracing::material::Material;

fn fx(v: i64) -> Fixed {
    Fixed { v }
}

fn v3(x: i64, y: i64, z: i64) -> Vec3 {
    Vec3::new(Fixed { v: x }, Fixed { v: y }, Fixed { v: z })
}

fn grey() -> Material {
    Material::Lambertian { albedo: v3(500_000_000, 500_000_000, 500_000_000) }
}

#[test]
fn fixed_point_arithmetic_is_exact() {
    assert_eq!(Fixed::zero().v, 0);
    assert_eq!(Fixed::one().v, SCALE);
    assert_eq!(Fixed::from_int(13).v, 13_000_000_000);
    assert_eq!(Fixed::from_int(-4).v, -4_000_000_000);
    let a: Fixed = Fixed { v: 1_500_000_000 };
    let b: Fixed = Fixed { v: -250_000_000 };
    assert_eq!(a.add(b).v, 1_250_000_000);
    assert_eq!(a.sub(b).v, 1_750_000_000);
    assert_eq!(a.mul(b).v, -375_000_000);
    assert_eq!(a.div(b).v, -6_000_000_000);
    assert_eq!(b.neg().v, 250_000_000);
    assert_eq!(b.abs().v, 250_000_000);
    assert_eq!(a.min(b).v, -250_000_000);
    assert_eq!(a.max(b).v, 1_500_000_000);
    assert_eq!(a.clamp(Fixed::zero(), Fixed::one()).v, SCALE);
    // sqrt(2.25) = 1.5 exactly at this scale.
    assert_eq!(Fixed { v: 2_250_000_000 }.sqrt().v, 1_500_000_000);
    // sqrt(2) is the floor of the irrational value.
    assert_eq!(Fixed { v: 2_000_000_000 }.sqrt().v, 1_414_213_562);
}

#[test]
fn vector_arithmetic_is_exact() {
    let a: Vec3 = v3(1_000_000_000, 2_000_000_000, -3_000_000_000);
    let b: Vec3 = v3(500_000_000, -500_000_000, 1_000_000_000);
    assert_eq!(a.add(b), v3(1_500_000_000, 1_500_000_000, -2_000_000_000));
    assert_eq!(a.sub(b), v3(500_000_000, 2_500_000_000, -4_000_000_000));
    assert_eq!(a.dot(&b).v, -3_500_000_000);
    assert_eq!(a.mul(b), v3(500_000_000, -1_000_000_000, -3_000_000_000));
}

#[test]
fn cross_product_follows_right_hand_rule() {
    let x_axis: Vec3 = v3(SCALE, 0, 0);
    let y_axis: Vec3 = v3(0, SCALE, 0);
    assert_eq!(x_axis.cross(&y_axis), v3(0, 0, SCALE));
    assert_eq!(y_axis.cross(&x_axis), v3(0, 0, -SCALE));
}

#[test]
fn normalize_three_four_five() {
    let a: Vec3 = v3(3_000_000_000, 4_000_000_000, 0);
    assert_eq!(a.normalize(), v3(600_000_000, 800_000_000, 0));
}

#[test]
fn normalize_of_zero_is_zero() {
    assert_eq!(Vec3::zeros().normalize(), Vec3::zeros());
}

#[test]
fn reflect_mirrors_about_the_normal() {
    let incoming: Vec3 = v3(SCALE, -SCALE, 0);
    let normal: Vec3 = v3(0, SCALE, 0);
    assert_eq!(incoming.reflect(&normal), v3(SCALE, SCALE, 0));
}

#[test]
fn refract_straight_through_at_unit_ratio() {
    let incoming: Vec3 = v3(0, 0, -SCALE);
    let normal: Vec3 = v3(0, 0, SCALE);
    assert_eq!(incoming.refract(&normal, fx(SCALE)), v3(0, 0, -SCALE));
}

#[test]
fn ray_at_walks_the_direction() {
    let r: Ray = Ray::new(v3(SCALE, 0, 0), v3(0, 0, -2 * SCALE), fx(0));
    assert_eq!(r.at(fx(500_000_000)), v3(SCALE, 0, -SCALE));
}

#[test]
fn sphere_hit_front_face() {
    // A ray down the negative z axis into a sphere half a unit away:
    // the hit lands at t = 0.5 on the front face, normal towards the ray.
    let s: Sphere = Sphere::new_stationary(v3(0, 0, -SCALE), fx(500_000_000), grey());
    let r: Ray = Ray::new(v3(0, 0, 0), v3(0, 0, -SCALE), fx(0));
    let rec: HitRecord = s.hit(&r, fx(0), fx(i64::MAX)).unwrap();
    assert_eq!(rec.t.v, 500_000_000);
    assert_eq!(rec.p, v3(0, 0, -500_000_000));
    assert_eq!(rec.normal, v3(0, 0, SCALE));
    assert!(rec.front_face);
}

#[test]
fn negative_radius_flips_the_face() {
    // The hollow-shell convention: with radius -0.5 the geometric outward
    // normal (p - centre) / radius points into the sphere, (0, 0, -1).
    // The record stores it flipped against the ray, so the same geometric
    // hit now reads as a back face: front_face is false and the stored
    // normal is the negated outward normal.
    let s: Sphere = Sphere::new_stationary(v3(0, 0, -SCALE), fx(-500_000_000), grey());
    let r: Ray = Ray::new(v3(0, 0, 0), v3(0, 0, -SCALE), fx(0));
    let rec: HitRecord = s.hit(&r, fx(0), fx(i64::MAX)).unwrap();
    assert_eq!(rec.t.v, 500_000_000);
    assert_eq!(rec.p, v3(0, 0, -500_000_000));
    assert!(!rec.front_face);
    assert_eq!(rec.normal, v3(0, 0, SCALE));
}

#[test]
fn sphere_miss_returns_none() {
    let s: Sphere = Sphere::new_stationary(v3(0, 0, -SCALE), fx(500_000_000), grey());
    let r: Ray = Ray::new(v3(0, 0, 0), v3(SCALE, 0, 0), fx(0));
    assert!(s.hit(&r, fx(0), fx(i64::MAX)).is_none());
}

#[test]
fn sphere_hit_takes_larger_root_from_inside() {
    // From the centre of the sphere the nearer root is behind the ray,
    // so the farther one is taken and the hit is a back face.
    let s: Sphere = Sphere::new_stationary(v3(0, 0, 0), fx(500_000_000), grey());
    let r: Ray = Ray::new(v3(0, 0, 0), v3(0, 0, -SCALE), fx(0));
    let rec: HitRecord = s.hit(&r, fx(0), fx(i64::MAX)).unwrap();
    assert_eq!(rec.t.v, 500_000_000);
    assert!(!rec.front_face);
    assert_eq!(rec.normal, v3(0, 0, SCALE));
}

#[test]
fn zero_direction_ray_hits_nothing() {
    // A zero direction would make the quadratic's leading coefficient
    // zero; the intersection treats it as a miss rather than dividing.
    let s: Sphere = Sphere::new_stationary(v3(0, 0, -SCALE), fx(500_000_000), grey());
    let r: Ray = Ray::new(v3(0, 0, 0), v3(0, 0, 0), fx(0));
    assert!(s.hit(&r, fx(0), fx(i64::MAX)).is_none());
}

#[test]
fn moving_sphere_follows_its_displacement() {
    // centre(t) = centre0 + t * displacement: at time 1 the sphere has
    // moved a unit along x, and only the ray aimed there hits it.
    let s: Sphere = Sphere::new_moving(v3(0, 0, -2 * SCALE), v3(SCALE, 0, -2 * SCALE),
        fx(500_000_000), grey());
    let aimed_origin: Ray = Ray::new(v3(0, 0, 0), v3(0, 0, -SCALE), fx(SCALE));
    assert!(s.hit(&aimed_origin, fx(0), fx(i64::MAX)).is_none());
    let aimed_moved: Ray = Ray::new(v3(SCALE, 0, 0), v3(0, 0, -SCALE), fx(SCALE));
    let rec: HitRecord = s.hit(&aimed_moved, fx(0), fx(i64::MAX)).unwrap();
    assert_eq!(rec.t.v, 1_500_000_000);
}

#[test]
fn scene_returns_nearest_hit() {
    let mut world: HittableList = HittableList::new_empty();
    world.add(Sphere::new_stationary(v3(0, 0, -4 * SCALE), fx(500_000_000), grey()));
    world.add(Sphere::new_stationary(v3(0, 0, -2 * SCALE), fx(500_000_000), grey()));
    let r: Ray = Ray::new(v3(0, 0, 0), v3(0, 0, -SCALE), fx(0));
    let rec: HitRecord = world.hit(&r, fx(0), fx(i64::MAX)).unwrap();
    assert_eq!(rec.t.v, 1_500_000_000);
}

#[test]
fn exact_tie_goes_to_the_last_inserted() {
    let first: Material = Material::Lambertian { albedo: v3(SCALE, 0, 0) };
    let second: Material = Material::Lambertian { albedo: v3(0, SCALE, 0) };
    let mut world: HittableList = HittableList::new_empty();
    world.add(Sphere::new_stationary(v3(0, 0, -2 * SCALE), fx(500_000_000), first));
    world.add(Sphere::new_stationary(v3(0, 0, -2 * SCALE), fx(500_000_000), second));
    let r: Ray = Ray::new(v3(0, 0, 0), v3(0, 0, -SCALE), fx(0));
    let rec: HitRecord = world.hit(&r, fx(0), fx(i64::MAX)).unwrap();
    assert_eq!(rec.mat, second);
}

#[test]
fn scene_construction_and_clear() {
    let s: Sphere = Sphere::new_stationary(v3(0, 0, -SCALE), fx(500_000_000), grey());
    let mut world: HittableList = HittableList::from_hittable(s);
    assert_eq!(world.objects.len(), 1);
    world.add(s);
    assert_eq!(world.objects.len(), 2);
    world.clear();
    assert_eq!(world.objects.len(), 0);
}

#[test]
fn set_face_normal_recomputes_the_face() {
    let r: Ray = Ray::new(v3(0, 0, 0), v3(0, 0, -SCALE), fx(0));
    let mut rec: HitRecord = HitRecord::new(v3(0, 0, -500_000_000), fx(500_000_000), &r,
        &v3(0, 0, SCALE), grey());
    assert!(rec.front_face);
    rec.set_face_normal(&r, &v3(0, 0, -SCALE));
    assert!(!rec.front_face);
    assert_eq!(rec.normal, v3(0, 0, SCALE));
}
