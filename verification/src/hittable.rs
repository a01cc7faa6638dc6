//! Surface hits and the closed set of intersectable shapes.

use vstd::prelude::*;

verus! {

use crate::fx::fits;
use crate::quad::{spec_quad_hit, Quad};
use crate::ray::Ray;
use crate::sphere::{spec_sphere_hit, Sphere};
use crate::vec3::{spec_dot, vec_bounded, Point3, Vec3, COORD_MAX};

/// Bound on the components of a stored surface normal: four units leaves
/// room for the rounding of the normalising division.
pub const NORMAL_MAX: i64 = 262144;

/// What an intersection query reports: the hit point, the oriented surface
/// normal, the ray parameter, which side was struck, the surface
/// coordinates, and the handle of the material to scatter with.
#[derive(Clone, Copy, PartialEq, Eq, Structural, Debug)]
pub struct HitRecord {
    pub p: Point3,
    pub normal: Vec3,
    pub mat: usize,
    pub t: i64,
    pub front_face: bool,
    pub uv: Vec3,
}

/// Every hit record handed out by an intersection query satisfies this:
/// the point lies in the world, the normal and surface coordinates are
/// bounded, and the parameter is nonnegative.
pub open spec fn hit_record_wf(rec: HitRecord) -> bool {
    &&& vec_bounded(rec.p, COORD_MAX as int)
    &&& vec_bounded(rec.normal, NORMAL_MAX as int)
    &&& vec_bounded(rec.uv, 65536)
    &&& 0 <= rec.t
}

impl HitRecord {
    /// An empty record, to be filled by an intersection query.
    pub fn new() -> (r: HitRecord)
        ensures
            r == (HitRecord {
                p: Vec3 { x: 0, y: 0, z: 0 },
                normal: Vec3 { x: 0, y: 0, z: 0 },
                mat: 0,
                t: 0,
                front_face: false,
                uv: Vec3 { x: 0, y: 0, z: 0 },
            }),
    {
        HitRecord {
            p: Vec3 { x: 0, y: 0, z: 0 },
            normal: Vec3 { x: 0, y: 0, z: 0 },
            mat: 0,
            t: 0,
            front_face: false,
            uv: Vec3 { x: 0, y: 0, z: 0 },
        }
    }

    /// Record which side of the surface the ray struck and orient the
    /// stored normal against the ray.
    pub fn set_face_normal(&mut self, r: &Ray, outward_normal: Vec3) -> (u: ())
        requires
            vec_bounded(r.dir, 0x4000_0000),
            vec_bounded(outward_normal, 0x4000_0000),
        ensures
            final(self).front_face == (spec_dot(r.dir, outward_normal) < 0),
            final(self).normal == if spec_dot(r.dir, outward_normal) < 0 {
                outward_normal
            } else {
                (Vec3 {
                    x: (-outward_normal.x) as i64,
                    y: (-outward_normal.y) as i64,
                    z: (-outward_normal.z) as i64,
                })
            },
            final(self).p == old(self).p,
            final(self).mat == old(self).mat,
            final(self).t == old(self).t,
            final(self).uv == old(self).uv,
    {
        proof {
            crate::vec3::lemma_dot_bound(r.dir, outward_normal, 0x4000_0000, 0x4000_0000);
        }
        let d = crate::vec3::dot(r.dir, outward_normal);
        self.front_face = d < 0;
        self.normal = if self.front_face {
            outward_normal
        } else {
            outward_normal.neg()
        };
    }
}

/// The closed set of shapes the tracer intersects.
pub enum Hittable {
    Sphere(Sphere),
    Quad(Quad),
}

/// Whether a shape's stored data is within the world bounds.
pub open spec fn hittable_wf(h: Hittable) -> bool {
    match h {
        Hittable::Sphere(s) => crate::sphere::sphere_wf(s),
        Hittable::Quad(q) => crate::quad::quad_wf(q),
    }
}

/// The exact outcome of intersecting one shape.
pub open spec fn spec_hittable_hit(h: Hittable, r: Ray, t_min: int, t_max: int) -> Option<
    HitRecord,
> {
    match h {
        Hittable::Sphere(s) => spec_sphere_hit(s, r, t_min, t_max),
        Hittable::Quad(q) => spec_quad_hit(q, r, t_min, t_max),
    }
}

impl Hittable {
    /// Intersect a ray with this shape; exact per `spec_hittable_hit`.
    pub fn hit(&self, ray: &Ray, t_min: i64, t_max: i64) -> (r: Option<HitRecord>)
        requires
            hittable_wf(*self),
            vec_bounded(ray.orig, crate::vec3::RAY_COORD_MAX as int),
            vec_bounded(ray.dir, crate::vec3::RAY_COORD_MAX as int),
            0 <= t_min <= t_max <= crate::vec3::T_LIMIT,
        ensures
            r == spec_hittable_hit(*self, *ray, t_min as int, t_max as int),
            r is Some ==> hit_record_wf(r->Some_0),
    {
        match self {
            Hittable::Sphere(s) => s.hit(ray, t_min, t_max),
            Hittable::Quad(q) => q.hit(ray, t_min, t_max),
        }
    }
}

} // verus!
