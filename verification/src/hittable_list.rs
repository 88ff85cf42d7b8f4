//! The scene aggregate: an ordered collection of spheres.
//!
//! Intersection walks the objects in insertion order, narrowing the upper
//! parameter bound to the best hit so far, so exact ties go to the
//! last-inserted object. The result is proved equal to the recursive
//! specification `list_hit_spec`.

use vstd::prelude::*;
use crate::fixed::Fixed;
use crate::vec3::in_bound;
use crate::ray::{Ray, ray_wf, WB};
use crate::hittable::{HitRecord, Sphere, sphere_hit_spec, sphere_wf, NB};
use crate::material::material_wf;

verus! {

/// Every sphere of the collection is well formed.
pub open spec fn list_wf(objs: Seq<Sphere>) -> bool {
    forall|i: int| 0 <= i < objs.len() ==> sphere_wf(#[trigger] objs[i])
}

/// The nearest hit over a sequence of spheres: the last object is tried
/// against the interval narrowed to the best hit among the earlier ones.
pub open spec fn list_hit_spec(objs: Seq<Sphere>, r: Ray, t_min: int, t_max: int) -> Option<
    HitRecord,
>
    decreases objs.len(),
{
    if objs.len() == 0 {
        None
    } else {
        let prefix = list_hit_spec(objs.drop_last(), r, t_min, t_max);
        let limit = match prefix {
            Some(rec) => rec.t.v as int,
            None => t_max,
        };
        match sphere_hit_spec(objs.last(), r, t_min, limit) {
            Some(rec) => Some(rec),
            None => prefix,
        }
    }
}

/// An ordered scene of spheres.
pub struct HittableList {
    pub objects: Vec<Sphere>,
}

impl HittableList {
    /// A scene with nothing in it.
    pub fn new_empty() -> (l: HittableList)
        ensures
            l.objects@.len() == 0,
    {
        HittableList { objects: Vec::new() }
    }

    /// A scene holding one object.
    pub fn from_hittable(object: Sphere) -> (l: HittableList)
        ensures
            l.objects@ =~= seq![object],
    {
        let mut objects: Vec<Sphere> = Vec::new();
        objects.push(object);
        HittableList { objects }
    }

    /// Append an object; it wins exact intersection ties against earlier
    /// ones.
    pub fn add(&mut self, object: Sphere)
        ensures
            final(self).objects@ =~= old(self).objects@.push(object),
    {
        self.objects.push(object);
    }

    /// Remove every object.
    pub fn clear(&mut self)
        ensures
            final(self).objects@.len() == 0,
    {
        self.objects.clear();
    }

    /// Decide well-formedness of the whole scene at run time.
    pub fn check_wf(&self) -> (r: bool)
        ensures
            r == list_wf(self.objects@),
    {
        let n: usize = self.objects.len();
        let mut i: usize = 0;
        while i < n
            invariant
                i <= n,
                n == self.objects@.len(),
                forall|k: int| 0 <= k < i ==> sphere_wf(#[trigger] self.objects@[k]),
            decreases n - i,
        {
            if !crate::hittable::sphere_wf_check(&self.objects[i]) {
                return false;
            }
            i = i + 1;
        }
        true
    }

    /// The nearest intersection of the ray with any object, within
    /// `[t_min, t_max]`.
    pub fn hit(&self, r: &Ray, t_min: Fixed, t_max: Fixed) -> (res: Option<HitRecord>)
        requires
            list_wf(self.objects@),
            ray_wf(*r),
        ensures
            res == list_hit_spec(self.objects@, *r, t_min.v as int, t_max.v as int),
            (res matches Some(rec) ==> {
                &&& t_min.v <= rec.t.v <= t_max.v
                &&& in_bound(rec.p, WB as int)
                &&& in_bound(rec.normal, NB as int)
                &&& material_wf(rec.mat)
            }),
    {
        let mut temp_rec: Option<HitRecord> = None;
        let mut closest_so_far: Fixed = t_max;
        let n: usize = self.objects.len();
        let mut i: usize = 0;
        while i < n
            invariant
                0 <= i <= n,
                n == self.objects@.len(),
                list_wf(self.objects@),
                ray_wf(*r),
                temp_rec == list_hit_spec(
                    self.objects@.take(i as int),
                    *r,
                    t_min.v as int,
                    t_max.v as int,
                ),
                match temp_rec {
                    Some(rec) => {
                        &&& closest_so_far == rec.t
                        &&& t_min.v <= rec.t.v <= t_max.v
                        &&& in_bound(rec.p, WB as int)
                        &&& in_bound(rec.normal, NB as int)
                        &&& material_wf(rec.mat)
                    },
                    None => closest_so_far == t_max,
                },
            decreases n - i,
        {
            let ghost prev = temp_rec;
            let obj: &Sphere = &self.objects[i];
            assert(sphere_wf(*obj));
            let this_hit: Option<HitRecord> = obj.hit(r, t_min, closest_so_far);
            match this_hit {
                Some(rec) => {
                    closest_so_far = rec.t;
                    temp_rec = Some(rec);
                },
                None => {},
            }
            proof {
                assert(self.objects@.take(i + 1).drop_last() =~= self.objects@.take(i as int));
                assert(self.objects@.take(i + 1).last() == self.objects@[i as int]);
            }
            i = i + 1;
        }
        proof {
            assert(self.objects@.take(n as int) =~= self.objects@);
        }
        temp_rec
    }
}

} // verus!
