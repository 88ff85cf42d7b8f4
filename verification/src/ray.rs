//! Rays: an origin, an unnormalized direction, and a time parameter used
//! for motion blur.

use vstd::prelude::*;
use crate::fixed::{Fixed, SCALE, absi, fmul};
use crate::vec3::{Vec3, in_bound, vadd_spec, vscale_spec};

verus! {

/// Bound on the magnitude of every coordinate the renderer works with:
/// ten thousand in real terms. Intersection treats anything outside it as
/// unreachable.
pub const WB: i64 = 10_000_000_000_000;

#[derive(Clone, Copy, PartialEq, Eq, Structural, Debug)]
pub struct Ray {
    pub origin: Vec3,
    pub direction: Vec3,
    pub time: Fixed,
}

/// The point a ray reaches at parameter `t`.
pub open spec fn at_spec(r: Ray, t: int) -> Vec3 {
    vadd_spec(r.origin, vscale_spec(r.direction, t))
}

/// A ray the tracer accepts: origin and direction within the world bound,
/// time within the motion-blur interval `[0, 1]`.
pub open spec fn ray_wf(r: Ray) -> bool {
    &&& in_bound(r.origin, WB as int)
    &&& in_bound(r.direction, WB as int)
    &&& 0 <= r.time.v <= SCALE as int
}

impl Ray {
    /// A ray from its parts.
    pub fn new(origin: Vec3, direction: Vec3, time: Fixed) -> (r: Ray)
        ensures
            r.origin == origin,
            r.direction == direction,
            r.time == time,
    {
        Ray { origin, direction, time }
    }

    /// The point the ray reaches at parameter `t`.
    pub fn at(&self, t: Fixed) -> (r: Vec3)
        requires
            absi(self.direction.x.v * t.v) <= (i64::MAX as int) * (SCALE as int),
            absi(self.direction.y.v * t.v) <= (i64::MAX as int) * (SCALE as int),
            absi(self.direction.z.v * t.v) <= (i64::MAX as int) * (SCALE as int),
            i64::MIN as int <= self.origin.x.v + fmul(self.direction.x.v as int, t.v as int)
                <= i64::MAX as int,
            i64::MIN as int <= self.origin.y.v + fmul(self.direction.y.v as int, t.v as int)
                <= i64::MAX as int,
            i64::MIN as int <= self.origin.z.v + fmul(self.direction.z.v as int, t.v as int)
                <= i64::MAX as int,
        ensures
            r == at_spec(*self, t.v as int),
    {
        self.origin.add(self.direction.scale(t))
    }
}

} // verus!
