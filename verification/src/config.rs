//! Render settings: the camera parameters and the image parameters, read
//! once at render start.

use vstd::prelude::*;
use crate::fixed::Fixed;
use crate::vec3::{Vec3, in_bound};

verus! {

pub struct Settings {
    pub lookfrom: Vec3,
    pub lookat: Vec3,
    pub vup: Vec3,
    pub vfov: Fixed,
    pub aspect_ratio: Fixed,
    pub aperture: Fixed,
    pub focus_distance: Fixed,
    pub samples_per_pixel: u32,
    pub max_depth: u32,
    pub width: u32,
}

/// Settings the renderer accepts: camera parameters inside the camera's
/// supported envelope, and image parameters inside the sizes the colour
/// accumulation was proved for.
pub open spec fn settings_wf(s: Settings) -> bool {
    &&& in_bound(s.lookfrom, 1_000_000_000_000)
    &&& in_bound(s.lookat, 1_000_000_000_000)
    &&& in_bound(s.vup, 1_000_000_000_000)
    &&& 0 < s.vfov.v <= 120_000_000_000
    &&& 0 < s.aspect_ratio.v <= 10_000_000_000
    &&& 0 <= s.aperture.v <= 10_000_000_000
    &&& 0 < s.focus_distance.v <= 15_000_000_000
    &&& 1 <= s.samples_per_pixel <= 100_000
    &&& 1 <= s.max_depth <= 1_000
    &&& 2 <= s.width <= 10_000
}

impl Settings {
    /// Decide well-formedness of a configuration at run time, before the
    /// renderer is asked to honour it.
    pub fn check_wf(&self) -> (r: bool)
        ensures
            r == settings_wf(*self),
    {
        crate::vec3::in_bound_check(&self.lookfrom, 1_000_000_000_000)
            && crate::vec3::in_bound_check(&self.lookat, 1_000_000_000_000)
            && crate::vec3::in_bound_check(&self.vup, 1_000_000_000_000) && 0 < self.vfov.v
            && self.vfov.v <= 120_000_000_000 && 0 < self.aspect_ratio.v && self.aspect_ratio.v
            <= 10_000_000_000 && 0 <= self.aperture.v && self.aperture.v <= 10_000_000_000 && 0
            < self.focus_distance.v && self.focus_distance.v <= 15_000_000_000 && 1
            <= self.samples_per_pixel && self.samples_per_pixel <= 100_000 && 1 <= self.max_depth
            && self.max_depth <= 1_000 && 2 <= self.width && self.width <= 10_000
    }
}

impl Default for Settings {
    /// The stock configuration: a wide view of the scene from
    /// (13, 2, 3), a slight aperture, fifty samples per pixel.
    fn default() -> (s: Settings)
        ensures
            s.lookfrom == (Vec3 {
                x: Fixed { v: 13_000_000_000 },
                y: Fixed { v: 2_000_000_000 },
                z: Fixed { v: 3_000_000_000 },
            }),
            s.lookat == (Vec3 { x: Fixed { v: 0 }, y: Fixed { v: 0 }, z: Fixed { v: 0 } }),
            s.vup == (Vec3 { x: Fixed { v: 0 }, y: Fixed { v: 1_000_000_000 }, z: Fixed { v: 0 } }),
            s.vfov.v == 20_000_000_000,
            s.aspect_ratio.v == 1_500_000_000,
            s.aperture.v == 100_000_000,
            s.focus_distance.v == 10_000_000_000,
            s.samples_per_pixel == 50,
            s.max_depth == 30,
            s.width == 800,
            settings_wf(s),
    {
        Settings {
            lookfrom: Vec3 {
                x: Fixed { v: 13_000_000_000 },
                y: Fixed { v: 2_000_000_000 },
                z: Fixed { v: 3_000_000_000 },
            },
            lookat: Vec3 { x: Fixed { v: 0 }, y: Fixed { v: 0 }, z: Fixed { v: 0 } },
            vup: Vec3 { x: Fixed { v: 0 }, y: Fixed { v: 1_000_000_000 }, z: Fixed { v: 0 } },
            vfov: Fixed { v: 20_000_000_000 },
            aspect_ratio: Fixed { v: 1_500_000_000 },
            aperture: Fixed { v: 100_000_000 },
            focus_distance: Fixed { v: 10_000_000_000 },
            samples_per_pixel: 50,
            max_depth: 30,
            width: 800,
        }
    }
}

} // verus!
