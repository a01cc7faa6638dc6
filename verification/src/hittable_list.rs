//! The scene: an arena of materials and a flat list of shapes, with
//! nearest-hit intersection by linear scan.

use vstd::prelude::*;

verus! {

use crate::hittable::{hit_record_wf, hittable_wf, spec_hittable_hit, HitRecord, Hittable};
use crate::material::{material_wf, Material};
use crate::ray::Ray;
use crate::vec3::{vec_bounded, RAY_COORD_MAX, T_LIMIT};

/// A scene: the shapes to intersect and the materials their handles point
/// into. Built once before rendering, read-only thereafter.
pub struct HittableList {
    pub objects: Vec<Hittable>,
    pub materials: Vec<Material>,
}

/// Every shape is within bounds and refers to a material of the arena,
/// and every material is within its own bounds.
pub open spec fn list_wf(w: HittableList) -> bool {
    &&& forall|k: int|
        0 <= k < w.objects@.len() ==> hittable_wf(#[trigger] w.objects@[k]) && spec_hit_mat(
            w.objects@[k],
        ) < w.materials@.len()
    &&& forall|k: int| 0 <= k < w.materials@.len() ==> material_wf(#[trigger] w.materials@[k])
}

/// The material handle a shape carries.
pub open spec fn spec_hit_mat(h: Hittable) -> int {
    match h {
        Hittable::Sphere(s) => s.mat as int,
        Hittable::Quad(q) => q.mat as int,
    }
}

/// The exact outcome of intersecting a prefix of the shape list: each
/// shape is queried with the closest hit so far as its upper bound, so
/// the result is the nearest hit, with the earliest shape winning ties.
pub open spec fn spec_list_hit(objs: Seq<Hittable>, r: Ray, t_min: int, t_max: int) -> Option<
    HitRecord,
>
    decreases objs.len(),
{
    if objs.len() == 0 {
        None
    } else {
        let prefix = spec_list_hit(objs.drop_last(), r, t_min, t_max);
        let bound = match prefix {
            Option::Some(h) => h.t as int,
            Option::None => t_max,
        };
        match spec_hittable_hit(objs.last(), r, t_min, bound) {
            Option::Some(h2) => Some(h2),
            Option::None => prefix,
        }
    }
}

impl HittableList {
    /// An empty scene.
    pub fn new() -> (r: HittableList)
        ensures
            r.objects@ == Seq::<Hittable>::empty(),
            r.materials@ == Seq::<Material>::empty(),
            list_wf(r),
    {
        HittableList { objects: Vec::new(), materials: Vec::new() }
    }

    /// Put a material into the arena and hand back its handle.
    pub fn add_material(&mut self, m: Material) -> (handle: usize)
        requires
            material_wf(m),
            old(self).materials@.len() < 0x1000_0000,
        ensures
            final(self).materials@ == old(self).materials@.push(m),
            final(self).objects@ == old(self).objects@,
            handle == old(self).materials@.len(),
            list_wf(*old(self)) ==> list_wf(*final(self)),
    {
        let handle = self.materials.len();
        self.materials.push(m);
        handle
    }

    /// Add a shape to the scene. Its material handle must point into the
    /// arena.
    pub fn add(&mut self, object: Hittable) -> (u: ())
        requires
            hittable_wf(object),
            spec_hit_mat(object) < old(self).materials@.len(),
            old(self).objects@.len() < 0x1000_0000,
        ensures
            final(self).objects@ == old(self).objects@.push(object),
            final(self).materials@ == old(self).materials@,
            list_wf(*old(self)) ==> list_wf(*final(self)),
    {
        self.objects.push(object);
    }

    /// Intersect a ray against every shape and report the nearest hit;
    /// exact per `spec_list_hit` over the whole list.
    pub fn hit(&self, ray: &Ray, t_min: i64, t_max: i64) -> (res: Option<HitRecord>)
        requires
            list_wf(*self),
            vec_bounded(ray.orig, RAY_COORD_MAX as int),
            vec_bounded(ray.dir, RAY_COORD_MAX as int),
            0 <= t_min <= t_max <= T_LIMIT,
        ensures
            res == spec_list_hit(self.objects@, *ray, t_min as int, t_max as int),
            res is Some ==> hit_record_wf(res->Some_0) && res->Some_0.mat
                < self.materials@.len() && t_min < res->Some_0.t < t_max,
    {
        let mut best: Option<HitRecord> = None;
        let mut i: usize = 0;
        let n = self.objects.len();
        while i < n
            invariant
                i <= n,
                n == self.objects@.len(),
                list_wf(*self),
                vec_bounded(ray.orig, RAY_COORD_MAX as int),
                vec_bounded(ray.dir, RAY_COORD_MAX as int),
                0 <= t_min <= t_max <= T_LIMIT,
                best == spec_list_hit(self.objects@.take(i as int), *ray, t_min as int, t_max as int),
                best is Some ==> hit_record_wf(best->Some_0) && best->Some_0.mat
                    < self.materials@.len() && t_min < best->Some_0.t < t_max,
            decreases n - i,
        {
            let closest: i64 = match &best {
                Option::Some(h) => h.t,
                Option::None => t_max,
            };
            let obj = &self.objects[i];
            let candidate = obj.hit(ray, t_min, closest);
            proof {
                assert(self.objects@.take(i + 1).drop_last() == self.objects@.take(i as int));
                assert(self.objects@.take(i + 1).last() == self.objects@[i as int]);
                if candidate is Some {
                    lemma_obj_hit_mat(
                        self.objects@[i as int],
                        *ray,
                        t_min as int,
                        closest as int,
                    );
                }
            }
            if let Some(rec) = candidate {
                best = Some(rec);
            }
            i = i + 1;
        }
        proof {
            assert(self.objects@.take(n as int) == self.objects@);
        }
        best
    }
}

/// A hit reported by a shape carries that shape's material handle and a
/// parameter strictly inside the queried interval.
proof fn lemma_obj_hit_mat(h: Hittable, r: Ray, t_min: int, t_max: int)
    requires
        spec_hittable_hit(h, r, t_min, t_max) is Some,
    ensures
        spec_hittable_hit(h, r, t_min, t_max)->Some_0.mat == spec_hit_mat(h),
        t_min < spec_hittable_hit(h, r, t_min, t_max)->Some_0.t < t_max,
{
    match h {
        Hittable::Sphere(s) => {
            let t = crate::sphere::spec_sphere_root(s, r, t_min, t_max);
            assert(crate::sphere::spec_sphere_hit(s, r, t_min, t_max) is Some ==> t_min < t
                < t_max);
        },
        Hittable::Quad(q) => {},
    }
}

} // verus!
