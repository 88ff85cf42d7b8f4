//! The thin-lens camera: an origin, an orthonormal-ish basis, and the
//! image-plane geometry scaled to the focus distance.
//!
//! `new` is proved to compute exactly the field values of `camera_spec`;
//! `get_ray` is proved to return a well-formed ray, and, when the lens
//! radius is zero, a ray from exactly the camera origin with exactly the
//! pinhole direction, whatever the lens sample was.

use vstd::prelude::*;
use crate::fixed::{Fixed, SCALE, absi, fmul, fdiv, lemma_abs_mul_le, lemma_tdiv_le,
    lemma_fmul_scale_identity};
use crate::vec3::{Vec3, in_bound, cross_spec, normalize_spec, vadd_spec, vsub_spec,
    vscale_spec};
use crate::ray::{Ray, ray_wf, at_spec, WB};
use crate::trig::{deg_to_rad, deg_to_rad_spec, tan_fixed, tan_spec};
use crate::sampling::rand_in_unit_disk;

verus! {

pub struct Camera {
    pub origin: Vec3,
    pub lower_left_corner: Vec3,
    pub horizontal: Vec3,
    pub vertical: Vec3,
    pub lens_radius: Fixed,
    pub u: Vec3,
    pub v: Vec3,
    pub w: Vec3,
}

/// Field bounds every constructed camera satisfies; they keep every ray
/// `get_ray` builds inside the world bound.
pub open spec fn camera_wf(c: Camera) -> bool {
    &&& in_bound(c.origin, 1_000_000_000_000)
    &&& in_bound(c.lower_left_corner, 3_000_000_000_000)
    &&& in_bound(c.horizontal, 1_000_000_000_000)
    &&& in_bound(c.vertical, 1_000_000_000_000)
    &&& in_bound(c.u, 1_000_000_000)
    &&& in_bound(c.v, 2_000_000_000)
    &&& in_bound(c.w, 1_000_000_000)
    &&& 0 <= c.lens_radius.v <= 5_000_000_000
}

/// The camera derived from the viewing parameters: viewport sized by the
/// tangent of the half field of view, basis from the view direction and
/// the up vector, image plane pushed to the focus distance.
pub open spec fn camera_spec(
    lookfrom: Vec3,
    lookat: Vec3,
    vup: Vec3,
    vfov: int,
    aspect_ratio: int,
    aperture: int,
    focus_dist: int,
) -> Camera {
    let theta = deg_to_rad_spec(vfov);
    let h = tan_spec(fdiv(theta, 2_000_000_000));
    let viewport_height = 2 * h;
    let viewport_width = fmul(aspect_ratio, viewport_height);
    let w = normalize_spec(vsub_spec(lookfrom, lookat));
    let u = normalize_spec(cross_spec(vup, w));
    let v = cross_spec(w, u);
    let horizontal = vscale_spec(u, fmul(focus_dist, viewport_width));
    let vertical = vscale_spec(v, fmul(focus_dist, viewport_height));
    let lower_left_corner = vsub_spec(
        vsub_spec(
            vsub_spec(lookfrom, vscale_spec(horizontal, 500_000_000)),
            vscale_spec(vertical, 500_000_000),
        ),
        vscale_spec(w, focus_dist),
    );
    Camera {
        origin: lookfrom,
        lower_left_corner,
        horizontal,
        vertical,
        lens_radius: Fixed { v: fdiv(aperture, 2_000_000_000) as i64 },
        u,
        v,
        w,
    }
}

impl Camera {
    /// Build a camera. The supported envelope: positions within a
    /// thousand units of the origin, a field of view up to 120 degrees,
    /// an aspect ratio up to 10, an aperture up to 10 and a focus
    /// distance up to 15.
    #[verifier::rlimit(100)]
    pub fn new(
        lookfrom: Vec3,
        lookat: Vec3,
        vup: Vec3,
        vfov: Fixed,
        aspect_ratio: Fixed,
        aperture: Fixed,
        focus_dist: Fixed,
    ) -> (cam: Camera)
        requires
            in_bound(lookfrom, 1_000_000_000_000),
            in_bound(lookat, 1_000_000_000_000),
            in_bound(vup, 1_000_000_000_000),
            0 < vfov.v <= 120_000_000_000,
            0 < aspect_ratio.v <= 10_000_000_000,
            0 <= aperture.v <= 10_000_000_000,
            0 < focus_dist.v <= 15_000_000_000,
        ensures
            cam == camera_spec(
                lookfrom,
                lookat,
                vup,
                vfov.v as int,
                aspect_ratio.v as int,
                aperture.v as int,
                focus_dist.v as int,
            ),
            camera_wf(cam),
            cam.origin == lookfrom,
            aperture.v == 0 ==> cam.lens_radius.v == 0,
    {
        let theta: Fixed = deg_to_rad(vfov);
        proof {
            lemma_abs_mul_le(vfov.v as int, 3_141_592_654, 120_000_000_000, 3_141_592_654);
            lemma_tdiv_le(vfov.v * 3_141_592_654, 180_000_000_000, 2_095_000_000);
            assert(vfov.v * 3_141_592_654 >= 0) by (nonlinear_arith)
                requires
                    vfov.v > 0,
            ;
            lemma_tdiv_le(theta.v * (SCALE as int), 2_000_000_000, 1_048_000_000);
        }
        let half_theta: Fixed = theta.div(Fixed { v: 2_000_000_000 });
        let h: Fixed = tan_fixed(half_theta);
        let viewport_height: Fixed = Fixed { v: 2 * h.v };
        proof {
            lemma_abs_mul_le(aspect_ratio.v as int, viewport_height.v as int, 10_000_000_000,
                5_580_000_000);
            lemma_tdiv_le(aspect_ratio.v * viewport_height.v, SCALE as int, 55_800_000_000);
        }
        let viewport_width: Fixed = aspect_ratio.mul(viewport_height);
        let w: Vec3 = lookfrom.sub(lookat).normalize();
        let vup_cross_w: Vec3 = vup.cross(&w);
        proof {
            lemma_abs_mul_le(vup.y.v as int, w.z.v as int, 1_000_000_000_000, 1_000_000_000);
            lemma_abs_mul_le(vup.z.v as int, w.y.v as int, 1_000_000_000_000, 1_000_000_000);
            lemma_abs_mul_le(vup.z.v as int, w.x.v as int, 1_000_000_000_000, 1_000_000_000);
            lemma_abs_mul_le(vup.x.v as int, w.z.v as int, 1_000_000_000_000, 1_000_000_000);
            lemma_abs_mul_le(vup.x.v as int, w.y.v as int, 1_000_000_000_000, 1_000_000_000);
            lemma_abs_mul_le(vup.y.v as int, w.x.v as int, 1_000_000_000_000, 1_000_000_000);
            lemma_tdiv_le(vup.y.v * w.z.v - vup.z.v * w.y.v, SCALE as int, 2_000_000_000_000);
            lemma_tdiv_le(vup.z.v * w.x.v - vup.x.v * w.z.v, SCALE as int, 2_000_000_000_000);
            lemma_tdiv_le(vup.x.v * w.y.v - vup.y.v * w.x.v, SCALE as int, 2_000_000_000_000);
        }
        let u: Vec3 = vup_cross_w.normalize();
        let v: Vec3 = w.cross(&u);
        proof {
            lemma_abs_mul_le(w.y.v as int, u.z.v as int, 1_000_000_000, 1_000_000_000);
            lemma_abs_mul_le(w.z.v as int, u.y.v as int, 1_000_000_000, 1_000_000_000);
            lemma_abs_mul_le(w.z.v as int, u.x.v as int, 1_000_000_000, 1_000_000_000);
            lemma_abs_mul_le(w.x.v as int, u.z.v as int, 1_000_000_000, 1_000_000_000);
            lemma_abs_mul_le(w.x.v as int, u.y.v as int, 1_000_000_000, 1_000_000_000);
            lemma_abs_mul_le(w.y.v as int, u.x.v as int, 1_000_000_000, 1_000_000_000);
            lemma_tdiv_le(w.y.v * u.z.v - w.z.v * u.y.v, SCALE as int, 2_000_000_000);
            lemma_tdiv_le(w.z.v * u.x.v - w.x.v * u.z.v, SCALE as int, 2_000_000_000);
            lemma_tdiv_le(w.x.v * u.y.v - w.y.v * u.x.v, SCALE as int, 2_000_000_000);
            lemma_abs_mul_le(focus_dist.v as int, viewport_width.v as int, 15_000_000_000,
                55_800_000_000);
            lemma_tdiv_le(focus_dist.v * viewport_width.v, SCALE as int, 837_000_000_000);
            lemma_abs_mul_le(focus_dist.v as int, viewport_height.v as int, 15_000_000_000,
                5_580_000_000);
            lemma_tdiv_le(focus_dist.v * viewport_height.v, SCALE as int, 83_700_000_000);
        }
        let fw: Fixed = focus_dist.mul(viewport_width);
        let fh: Fixed = focus_dist.mul(viewport_height);
        proof {
            lemma_abs_mul_le(u.x.v as int, fw.v as int, 1_000_000_000, 837_000_000_000);
            lemma_abs_mul_le(u.y.v as int, fw.v as int, 1_000_000_000, 837_000_000_000);
            lemma_abs_mul_le(u.z.v as int, fw.v as int, 1_000_000_000, 837_000_000_000);
            lemma_tdiv_le(u.x.v * fw.v, SCALE as int, 837_000_000_000);
            lemma_tdiv_le(u.y.v * fw.v, SCALE as int, 837_000_000_000);
            lemma_tdiv_le(u.z.v * fw.v, SCALE as int, 837_000_000_000);
            lemma_abs_mul_le(v.x.v as int, fh.v as int, 2_000_000_000, 83_700_000_000);
            lemma_abs_mul_le(v.y.v as int, fh.v as int, 2_000_000_000, 83_700_000_000);
            lemma_abs_mul_le(v.z.v as int, fh.v as int, 2_000_000_000, 83_700_000_000);
            lemma_tdiv_le(v.x.v * fh.v, SCALE as int, 168_000_000_000);
            lemma_tdiv_le(v.y.v * fh.v, SCALE as int, 168_000_000_000);
            lemma_tdiv_le(v.z.v * fh.v, SCALE as int, 168_000_000_000);
        }
        let horizontal: Vec3 = u.scale(fw);
        let vertical: Vec3 = v.scale(fh);
        let half: Fixed = Fixed { v: 500_000_000 };
        proof {
            lemma_abs_mul_le(horizontal.x.v as int, 500_000_000, 837_000_000_000, 500_000_000);
            lemma_abs_mul_le(horizontal.y.v as int, 500_000_000, 837_000_000_000, 500_000_000);
            lemma_abs_mul_le(horizontal.z.v as int, 500_000_000, 837_000_000_000, 500_000_000);
            lemma_tdiv_le(horizontal.x.v * 500_000_000, SCALE as int, 419_000_000_000);
            lemma_tdiv_le(horizontal.y.v * 500_000_000, SCALE as int, 419_000_000_000);
            lemma_tdiv_le(horizontal.z.v * 500_000_000, SCALE as int, 419_000_000_000);
            lemma_abs_mul_le(vertical.x.v as int, 500_000_000, 168_000_000_000, 500_000_000);
            lemma_abs_mul_le(vertical.y.v as int, 500_000_000, 168_000_000_000, 500_000_000);
            lemma_abs_mul_le(vertical.z.v as int, 500_000_000, 168_000_000_000, 500_000_000);
            lemma_tdiv_le(vertical.x.v * 500_000_000, SCALE as int, 84_000_000_000);
            lemma_tdiv_le(vertical.y.v * 500_000_000, SCALE as int, 84_000_000_000);
            lemma_tdiv_le(vertical.z.v * 500_000_000, SCALE as int, 84_000_000_000);
            lemma_abs_mul_le(w.x.v as int, focus_dist.v as int, 1_000_000_000, 15_000_000_000);
            lemma_abs_mul_le(w.y.v as int, focus_dist.v as int, 1_000_000_000, 15_000_000_000);
            lemma_abs_mul_le(w.z.v as int, focus_dist.v as int, 1_000_000_000, 15_000_000_000);
            lemma_tdiv_le(w.x.v * focus_dist.v, SCALE as int, 15_000_000_000);
            lemma_tdiv_le(w.y.v * focus_dist.v, SCALE as int, 15_000_000_000);
            lemma_tdiv_le(w.z.v * focus_dist.v, SCALE as int, 15_000_000_000);
        }
        let lower_left_corner: Vec3 = lookfrom.sub(horizontal.scale(half)).sub(
            vertical.scale(half),
        ).sub(w.scale(focus_dist));
        proof {
            lemma_tdiv_le(aperture.v * (SCALE as int), 2_000_000_000, 5_000_000_000);
        }
        let lens_radius: Fixed = aperture.div(Fixed { v: 2_000_000_000 });
        Camera { origin: lookfrom, lower_left_corner, horizontal, vertical, lens_radius, u, v, w }
    }

    /// The jittered origin offset: a lens-disk sample scaled into the
    /// camera's (u, v) plane. A zero lens radius makes it exactly zero.
    fn lens_offset(&self) -> (offset: Vec3)
        requires
            camera_wf(*self),
        ensures
            in_bound(offset, 20_000_000_000),
            absi(offset.x.v as int) <= 3 * self.lens_radius.v,
            absi(offset.y.v as int) <= 3 * self.lens_radius.v,
            absi(offset.z.v as int) <= 3 * self.lens_radius.v,
            self.lens_radius.v == 0 ==> offset == (Vec3 {
                x: Fixed { v: 0 },
                y: Fixed { v: 0 },
                z: Fixed { v: 0 },
            }),
    {
        let disk: Vec3 = rand_in_unit_disk();
        proof {
            lemma_abs_mul_le(disk.x.v as int, self.lens_radius.v as int, 1_000_000_000,
                5_000_000_000);
            lemma_abs_mul_le(disk.y.v as int, self.lens_radius.v as int, 1_000_000_000,
                5_000_000_000);
            lemma_abs_mul_le(disk.z.v as int, self.lens_radius.v as int, 1_000_000_000,
                5_000_000_000);
            lemma_tdiv_le(disk.x.v * self.lens_radius.v, SCALE as int, 5_000_000_000);
            lemma_tdiv_le(disk.y.v * self.lens_radius.v, SCALE as int, 5_000_000_000);
            lemma_tdiv_le(disk.z.v * self.lens_radius.v, SCALE as int, 5_000_000_000);
            lemma_abs_mul_le(
                disk.x.v as int,
                self.lens_radius.v as int,
                1_000_000_000,
                self.lens_radius.v as int,
            );
            lemma_abs_mul_le(
                disk.y.v as int,
                self.lens_radius.v as int,
                1_000_000_000,
                self.lens_radius.v as int,
            );
            lemma_tdiv_le(
                disk.x.v * self.lens_radius.v,
                SCALE as int,
                self.lens_radius.v as int,
            );
            lemma_tdiv_le(
                disk.y.v * self.lens_radius.v,
                SCALE as int,
                self.lens_radius.v as int,
            );
            if self.lens_radius.v == 0 {
                crate::fixed::lemma_fmul_zero(disk.x.v as int);
                crate::fixed::lemma_fmul_zero(disk.y.v as int);
                crate::fixed::lemma_fmul_zero(disk.z.v as int);
            }
        }
        let rd: Vec3 = disk.scale(self.lens_radius);
        proof {
            lemma_abs_mul_le(self.u.x.v as int, rd.x.v as int, 2_000_000_000, 5_000_000_000);
            lemma_abs_mul_le(self.u.y.v as int, rd.x.v as int, 2_000_000_000, 5_000_000_000);
            lemma_abs_mul_le(self.u.z.v as int, rd.x.v as int, 2_000_000_000, 5_000_000_000);
            lemma_tdiv_le(self.u.x.v * rd.x.v, SCALE as int, 10_000_000_000);
            lemma_tdiv_le(self.u.y.v * rd.x.v, SCALE as int, 10_000_000_000);
            lemma_tdiv_le(self.u.z.v * rd.x.v, SCALE as int, 10_000_000_000);
            lemma_abs_mul_le(self.v.x.v as int, rd.y.v as int, 2_000_000_000, 5_000_000_000);
            lemma_abs_mul_le(self.v.y.v as int, rd.y.v as int, 2_000_000_000, 5_000_000_000);
            lemma_abs_mul_le(self.v.z.v as int, rd.y.v as int, 2_000_000_000, 5_000_000_000);
            lemma_tdiv_le(self.v.x.v * rd.y.v, SCALE as int, 10_000_000_000);
            lemma_tdiv_le(self.v.y.v * rd.y.v, SCALE as int, 10_000_000_000);
            lemma_tdiv_le(self.v.z.v * rd.y.v, SCALE as int, 10_000_000_000);
            lemma_abs_mul_le(self.u.x.v as int, rd.x.v as int, 1_000_000_000,
                self.lens_radius.v as int);
            lemma_abs_mul_le(self.u.y.v as int, rd.x.v as int, 1_000_000_000,
                self.lens_radius.v as int);
            lemma_abs_mul_le(self.u.z.v as int, rd.x.v as int, 1_000_000_000,
                self.lens_radius.v as int);
            lemma_tdiv_le(self.u.x.v * rd.x.v, SCALE as int, self.lens_radius.v as int);
            lemma_tdiv_le(self.u.y.v * rd.x.v, SCALE as int, self.lens_radius.v as int);
            lemma_tdiv_le(self.u.z.v * rd.x.v, SCALE as int, self.lens_radius.v as int);
            lemma_abs_mul_le(self.v.x.v as int, rd.y.v as int, 2_000_000_000,
                self.lens_radius.v as int);
            lemma_abs_mul_le(self.v.y.v as int, rd.y.v as int, 2_000_000_000,
                self.lens_radius.v as int);
            lemma_abs_mul_le(self.v.z.v as int, rd.y.v as int, 2_000_000_000,
                self.lens_radius.v as int);
            lemma_tdiv_le(self.v.x.v * rd.y.v, SCALE as int, 2 * self.lens_radius.v as int);
            lemma_tdiv_le(self.v.y.v * rd.y.v, SCALE as int, 2 * self.lens_radius.v as int);
            lemma_tdiv_le(self.v.z.v * rd.y.v, SCALE as int, 2 * self.lens_radius.v as int);
            if self.lens_radius.v == 0 {
                crate::fixed::lemma_fmul_zero(self.u.x.v as int);
                crate::fixed::lemma_fmul_zero(self.u.y.v as int);
                crate::fixed::lemma_fmul_zero(self.u.z.v as int);
                crate::fixed::lemma_fmul_zero(self.v.x.v as int);
                crate::fixed::lemma_fmul_zero(self.v.y.v as int);
                crate::fixed::lemma_fmul_zero(self.v.z.v as int);
            }
        }
        self.u.scale(rd.x).add(self.v.scale(rd.y))
    }

    /// A ray through normalized image-plane coordinates `(s, t)`, its
    /// origin jittered over the lens disk. With a zero lens radius the
    /// jitter vanishes: the ray leaves exactly from the camera origin —
    /// the pinhole invariant.
    #[verifier::rlimit(100)]
    pub fn get_ray(&self, s: Fixed, t: Fixed) -> (ray: Ray)
        requires
            camera_wf(*self),
            0 <= s.v <= 2 * (SCALE as int),
            0 <= t.v <= 2 * (SCALE as int),
        ensures
            ray_wf(ray),
            ray.time.v == 0,
            absi(ray.origin.x.v - self.origin.x.v) <= 3 * self.lens_radius.v,
            absi(ray.origin.y.v - self.origin.y.v) <= 3 * self.lens_radius.v,
            absi(ray.origin.z.v - self.origin.z.v) <= 3 * self.lens_radius.v,
            at_spec(ray, SCALE as int) == vadd_spec(
                vadd_spec(self.lower_left_corner, vscale_spec(self.horizontal, s.v as int)),
                vscale_spec(self.vertical, t.v as int),
            ),
            self.lens_radius.v == 0 ==> ray.origin == self.origin,
            self.lens_radius.v == 0 ==> ray.direction == vsub_spec(
                vadd_spec(
                    vadd_spec(self.lower_left_corner, vscale_spec(self.horizontal, s.v as int)),
                    vscale_spec(self.vertical, t.v as int),
                ),
                self.origin,
            ),
    {
        let offset: Vec3 = self.lens_offset();
        proof {
            lemma_abs_mul_le(self.horizontal.x.v as int, s.v as int, 1_000_000_000_000,
                2_000_000_000);
            lemma_abs_mul_le(self.horizontal.y.v as int, s.v as int, 1_000_000_000_000,
                2_000_000_000);
            lemma_abs_mul_le(self.horizontal.z.v as int, s.v as int, 1_000_000_000_000,
                2_000_000_000);
            lemma_tdiv_le(self.horizontal.x.v * s.v, SCALE as int, 2_000_000_000_000);
            lemma_tdiv_le(self.horizontal.y.v * s.v, SCALE as int, 2_000_000_000_000);
            lemma_tdiv_le(self.horizontal.z.v * s.v, SCALE as int, 2_000_000_000_000);
            lemma_abs_mul_le(self.vertical.x.v as int, t.v as int, 1_000_000_000_000,
                2_000_000_000);
            lemma_abs_mul_le(self.vertical.y.v as int, t.v as int, 1_000_000_000_000,
                2_000_000_000);
            lemma_abs_mul_le(self.vertical.z.v as int, t.v as int, 1_000_000_000_000,
                2_000_000_000);
            lemma_tdiv_le(self.vertical.x.v * t.v, SCALE as int, 2_000_000_000_000);
            lemma_tdiv_le(self.vertical.y.v * t.v, SCALE as int, 2_000_000_000_000);
            lemma_tdiv_le(self.vertical.z.v * t.v, SCALE as int, 2_000_000_000_000);
        }
        let direction: Vec3 = self.lower_left_corner.add(self.horizontal.scale(s)).add(
            self.vertical.scale(t),
        ).sub(self.origin).sub(offset);
        let origin: Vec3 = self.origin.add(offset);
        let ray: Ray = Ray { origin, direction, time: Fixed { v: 0 } };
        proof {
            // The thin-lens focal invariant: the lens offset added to the
            // origin is subtracted from the direction, so the point the
            // ray reaches at parameter one is the focal-plane target,
            // independent of the lens sample.
            lemma_fmul_scale_identity(direction.x.v as int);
            lemma_fmul_scale_identity(direction.y.v as int);
            lemma_fmul_scale_identity(direction.z.v as int);
            let target = vadd_spec(
                vadd_spec(self.lower_left_corner, vscale_spec(self.horizontal, s.v as int)),
                vscale_spec(self.vertical, t.v as int),
            );
            let reached = at_spec(ray, SCALE as int);
            assert(reached.x.v == target.x.v && reached.y.v == target.y.v && reached.z.v
                == target.z.v);
            assert(reached == target);
            if self.lens_radius.v == 0 {
                assert(origin == self.origin);
                let pin = vsub_spec(
                    vadd_spec(
                        vadd_spec(self.lower_left_corner, vscale_spec(self.horizontal, s.v as int)),
                        vscale_spec(self.vertical, t.v as int),
                    ),
                    self.origin,
                );
                assert(direction.x.v == pin.x.v && direction.y.v == pin.y.v && direction.z.v
                    == pin.z.v);
                assert(direction == pin);
            }
        }
        ray
    }
}

} // verus!
