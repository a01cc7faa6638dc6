//! Ray/parallelogram intersection.

use vstd::prelude::*;

verus! {

use crate::fx::{
    fits, fxdiv_checked, iabs, spec_fxdiv, SCALE,
};
use crate::hittable::{hit_record_wf, HitRecord};
use crate::ray::{spec_at, Ray};
use crate::vec3::{
    cross, cross3, dot, dot3, lemma_cross_bound, lemma_dot_bound, spec_cross, spec_dot, spec_unit,
    unit_vector, vec_bounded, Point3, Vec3, COORD_MAX, RAY_COORD_MAX, T_LIMIT,
};

/// Bound on the components of the precomputed basis-projection vector `w`.
pub const QUAD_W_MAX: i64 = 0x100_0000_0000;

/// A planar parallelogram: an origin, two edge vectors, and precomputed
/// plane data — the unit plane normal, the plane offset `d`, and the
/// vector `w` that projects a point into the edge basis.
#[derive(Clone, Copy, PartialEq, Eq, Structural, Debug)]
pub struct Quad {
    pub origin: Point3,
    pub u: Vec3,
    pub v: Vec3,
    pub normal: Vec3,
    pub w: Vec3,
    pub d: i64,
    pub mat: usize,
}

/// The quad's stored and precomputed data lies within its bounds.
pub open spec fn quad_wf(q: Quad) -> bool {
    &&& vec_bounded(q.origin, COORD_MAX as int)
    &&& vec_bounded(q.u, COORD_MAX as int)
    &&& vec_bounded(q.v, COORD_MAX as int)
    &&& vec_bounded(q.normal, 2 * SCALE)
    &&& vec_bounded(q.w, QUAD_W_MAX as int)
    &&& iabs(q.d as int) <= 0x1000_0000
}

/// The exact outcome of building a quad: `None` when the edges span no
/// measurable area or the derived plane data leaves its bounds.
pub open spec fn spec_quad_new(origin: Point3, u: Vec3, v: Vec3, mat: int) -> Option<Quad> {
    let cr = spec_cross(u, v);
    if !(-0x4000_0000 <= cr.x <= 0x4000_0000 && -0x4000_0000 <= cr.y <= 0x4000_0000
        && -0x4000_0000 <= cr.z <= 0x4000_0000) {
        None
    } else {
        let n = Vec3 { x: cr.x as i64, y: cr.y as i64, z: cr.z as i64 };
        let lsn = spec_dot(n, n);
        if lsn < 1 {
            None
        } else {
            let nrm = Vec3 {
                x: spec_unit(n).x as i64,
                y: spec_unit(n).y as i64,
                z: spec_unit(n).z as i64,
            };
            let wx = spec_fxdiv(n.x as int, lsn);
            let wy = spec_fxdiv(n.y as int, lsn);
            let wz = spec_fxdiv(n.z as int, lsn);
            if !(-QUAD_W_MAX <= wx <= QUAD_W_MAX && -QUAD_W_MAX <= wy <= QUAD_W_MAX
                && -QUAD_W_MAX <= wz <= QUAD_W_MAX) {
                None
            } else {
                Some(
                    Quad {
                        origin,
                        u,
                        v,
                        normal: nrm,
                        w: Vec3 { x: wx as i64, y: wy as i64, z: wz as i64 },
                        d: spec_dot(nrm, origin) as i64,
                        mat: mat as usize,
                    },
                )
            }
        }
    }
}

/// The exact outcome of intersecting a ray with a quad over the open
/// parameter interval `(t_min, t_max)`: solve the plane equation, then
/// accept the point only when both edge-basis coordinates lie in `[0, 1]`.
pub open spec fn spec_quad_hit(q: Quad, r: Ray, t_min: int, t_max: int) -> Option<HitRecord> {
    let dot_nd = spec_dot(q.normal, r.dir);
    let dot_no = spec_dot(q.normal, r.orig);
    let t = spec_fxdiv(q.d - dot_no, dot_nd);
    if dot_nd == 0 || !fits(t) || !(t_min < t < t_max) {
        None
    } else {
        let px = spec_at(r, t).x;
        let py = spec_at(r, t).y;
        let pz = spec_at(r, t).z;
        if !(-COORD_MAX <= px <= COORD_MAX && -COORD_MAX <= py <= COORD_MAX && -COORD_MAX <= pz
            <= COORD_MAX) {
            None
        } else {
            let ox = px - q.origin.x;
            let oy = py - q.origin.y;
            let oz = pz - q.origin.z;
            let ca = cross3(ox, oy, oz, q.v.x as int, q.v.y as int, q.v.z as int);
            let alpha = dot3(q.w.x as int, q.w.y as int, q.w.z as int, ca.x, ca.y, ca.z);
            let cb = cross3(q.u.x as int, q.u.y as int, q.u.z as int, ox, oy, oz);
            let beta = dot3(q.w.x as int, q.w.y as int, q.w.z as int, cb.x, cb.y, cb.z);
            if alpha < 0 || alpha > SCALE || beta < 0 || beta > SCALE {
                None
            } else {
                let front = dot_nd < 0;
                Some(
                    HitRecord {
                        p: Vec3 { x: px as i64, y: py as i64, z: pz as i64 },
                        normal: if front {
                            q.normal
                        } else {
                            Vec3 {
                                x: (-q.normal.x) as i64,
                                y: (-q.normal.y) as i64,
                                z: (-q.normal.z) as i64,
                            }
                        },
                        mat: q.mat,
                        t: t as i64,
                        front_face: front,
                        uv: Vec3 { x: alpha as i64, y: beta as i64, z: 0 },
                    },
                )
            }
        }
    }
}

impl Quad {
    /// Build a quad from an origin, two edge vectors and a material
    /// handle; exact per `spec_quad_new`.
    pub fn new(origin: Point3, u: Vec3, v: Vec3, mat: usize) -> (r: Option<Quad>)
        requires
            vec_bounded(origin, COORD_MAX as int),
            vec_bounded(u, COORD_MAX as int),
            vec_bounded(v, COORD_MAX as int),
        ensures
            r == spec_quad_new(origin, u, v, mat as int),
            r is Some ==> quad_wf(r->Some_0),
    {
        proof {
            lemma_cross_bound(u, v, COORD_MAX as int, COORD_MAX as int);
        }
        let n = cross(u, v);
        if n.x > 0x4000_0000 || n.x < -0x4000_0000 || n.y > 0x4000_0000 || n.y < -0x4000_0000
            || n.z > 0x4000_0000 || n.z < -0x4000_0000 {
            return None;
        }
        proof {
            lemma_dot_bound(n, n, 0x4000_0000, 0x4000_0000);
        }
        let lsn = n.length_squared();
        if lsn < 1 {
            return None;
        }
        let nrm = unit_vector(n);
        proof {
            lemma_dot_bound(nrm, origin, 2 * SCALE, COORD_MAX as int);
        }
        let d = dot(nrm, origin);
        let owx = fxdiv_checked(n.x, lsn);
        let owy = fxdiv_checked(n.y, lsn);
        let owz = fxdiv_checked(n.z, lsn);
        let (wx, wy, wz): (i64, i64, i64) = match (owx, owy, owz) {
            (Some(wx), Some(wy), Some(wz)) => (wx, wy, wz),
            _ => {
                return None;
            },
        };
        if wx > QUAD_W_MAX || wx < -QUAD_W_MAX || wy > QUAD_W_MAX || wy < -QUAD_W_MAX || wz
            > QUAD_W_MAX || wz < -QUAD_W_MAX {
            return None;
        }
        Some(
            Quad {
                origin,
                u,
                v,
                normal: nrm,
                w: Vec3 { x: wx, y: wy, z: wz },
                d,
                mat,
            },
        )
    }

    /// Intersect a ray with the quad; exact per `spec_quad_hit`.
    pub fn hit(&self, ray: &Ray, t_min: i64, t_max: i64) -> (res: Option<HitRecord>)
        requires
            quad_wf(*self),
            vec_bounded(ray.orig, RAY_COORD_MAX as int),
            vec_bounded(ray.dir, RAY_COORD_MAX as int),
            0 <= t_min <= t_max <= T_LIMIT,
        ensures
            res == spec_quad_hit(*self, *ray, t_min as int, t_max as int),
            res is Some ==> hit_record_wf(res->Some_0),
    {
        proof {
            lemma_dot_bound(self.normal, ray.dir, 2 * SCALE, RAY_COORD_MAX as int);
            lemma_dot_bound(self.normal, ray.orig, 2 * SCALE, RAY_COORD_MAX as int);
        }
        let dot_nd = dot(self.normal, ray.direction());
        if dot_nd == 0 {
            return None;
        }
        let dot_no = dot(self.normal, ray.origin());
        let t = match fxdiv_checked(self.d - dot_no, dot_nd) {
            Some(t) => t,
            None => {
                return None;
            },
        };
        if !(t_min < t && t < t_max) {
            return None;
        }
        let p = ray.at(t);
        if p.x > COORD_MAX || p.x < -COORD_MAX || p.y > COORD_MAX || p.y < -COORD_MAX || p.z
            > COORD_MAX || p.z < -COORD_MAX {
            return None;
        }
        let o_p = p.sub(self.origin);
        proof {
            lemma_cross_bound(o_p, self.v, 0x200_0000, COORD_MAX as int);
            lemma_cross_bound(self.u, o_p, COORD_MAX as int, 0x200_0000);
        }
        let ca = cross(o_p, self.v);
        proof {
            lemma_dot_bound(self.w, ca, QUAD_W_MAX as int, 0x4_0000_0000);
        }
        let alpha = dot(self.w, ca);
        if alpha < 0 || alpha > 65536 {
            return None;
        }
        let cb = cross(self.u, o_p);
        proof {
            lemma_dot_bound(self.w, cb, QUAD_W_MAX as int, 0x4_0000_0000);
        }
        let beta = dot(self.w, cb);
        if beta < 0 || beta > 65536 {
            return None;
        }
        let mut rec = HitRecord::new();
        rec.p = p;
        rec.t = t;
        rec.mat = self.mat;
        rec.uv = Vec3 { x: alpha, y: beta, z: 0 };
        rec.set_face_normal(ray, self.normal);
        Some(rec)
    }
}

} // verus!
