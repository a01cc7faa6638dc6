//! Ray/sphere intersection.

use vstd::prelude::*;

verus! {

use crate::fx::{
    fits, fxdiv_checked, fxmul, fxsqrt, iabs, lemma_fxmul_bound, lemma_sqrt_le, spec_fxdiv,
    spec_fxmul, sqrt_floor, tdiv, SCALE,
};
use crate::hittable::{hit_record_wf, HitRecord, NORMAL_MAX};
use crate::ray::{spec_at, Ray};
use crate::vec3::{
    dot, dot3, lemma_dot_bound, spec_dot, vec_bounded, Point3, Vec3, COORD_MAX, RAY_COORD_MAX,
    T_LIMIT,
};

/// A sphere: center, radius and the handle of its material. A negative
/// radius flips the outward normal, which models a hollow shell's inside.
#[derive(Clone, Copy, PartialEq, Eq, Structural, Debug)]
pub struct Sphere {
    pub center: Point3,
    pub radius: i64,
    pub mat: usize,
}

/// The sphere's data lies within the world bounds.
pub open spec fn sphere_wf(s: Sphere) -> bool {
    &&& vec_bounded(s.center, COORD_MAX as int)
    &&& iabs(s.radius as int) <= COORD_MAX as int
}

/// The ray parameter at which a ray first meets the sphere within the open
/// interval, mirrored from the quadratic exactly as it is computed; an
/// out-of-interval sentinel means no acceptable root.
pub open spec fn spec_sphere_root(s: Sphere, r: Ray, t_min: int, t_max: int) -> int {
    let a = spec_dot(r.dir, r.dir);
    let ocx = r.orig.x - s.center.x;
    let ocy = r.orig.y - s.center.y;
    let ocz = r.orig.z - s.center.z;
    let half_b = dot3(ocx, ocy, ocz, r.dir.x as int, r.dir.y as int, r.dir.z as int);
    let c = dot3(ocx, ocy, ocz, ocx, ocy, ocz) - spec_fxmul(s.radius as int, s.radius as int);
    let disc = spec_fxmul(half_b, half_b) - spec_fxmul(a, c);
    if a <= 0 || disc < 0 {
        t_max
    } else {
        let sq = sqrt_floor(disc * SCALE);
        let q1 = spec_fxdiv(-half_b - sq, a);
        let q2 = spec_fxdiv(-half_b + sq, a);
        if fits(q1) && t_min < q1 < t_max {
            q1
        } else if fits(q2) && t_min < q2 < t_max {
            q2
        } else {
            t_max
        }
    }
}

/// The record the sphere reports for a hit at parameter `t`: the point on
/// the ray, the normal scaled by the inverse radius and oriented against
/// the ray. A point outside the world or a normal beyond its bound is a
/// degenerate configuration and counts as a miss.
pub open spec fn spec_sphere_record(s: Sphere, r: Ray, t: int) -> Option<HitRecord> {
    let px = spec_at(r, t).x;
    let py = spec_at(r, t).y;
    let pz = spec_at(r, t).z;
    if !(-COORD_MAX <= px <= COORD_MAX && -COORD_MAX <= py <= COORD_MAX && -COORD_MAX <= pz
        <= COORD_MAX) || s.radius == 0 {
        None
    } else {
        let nx = spec_fxdiv(px - s.center.x, s.radius as int);
        let ny = spec_fxdiv(py - s.center.y, s.radius as int);
        let nz = spec_fxdiv(pz - s.center.z, s.radius as int);
        if !(-NORMAL_MAX <= nx <= NORMAL_MAX && -NORMAL_MAX <= ny <= NORMAL_MAX && -NORMAL_MAX
            <= nz <= NORMAL_MAX) {
            None
        } else {
            let front = dot3(r.dir.x as int, r.dir.y as int, r.dir.z as int, nx, ny, nz) < 0;
            Some(
                HitRecord {
                    p: Vec3 { x: px as i64, y: py as i64, z: pz as i64 },
                    normal: if front {
                        Vec3 { x: nx as i64, y: ny as i64, z: nz as i64 }
                    } else {
                        Vec3 { x: (-nx) as i64, y: (-ny) as i64, z: (-nz) as i64 }
                    },
                    mat: s.mat,
                    t: t as i64,
                    front_face: front,
                    uv: Vec3 { x: 0, y: 0, z: 0 },
                },
            )
        }
    }
}

/// The exact outcome of intersecting a ray with a sphere over the open
/// parameter interval `(t_min, t_max)`.
pub open spec fn spec_sphere_hit(s: Sphere, r: Ray, t_min: int, t_max: int) -> Option<HitRecord> {
    let t = spec_sphere_root(s, r, t_min, t_max);
    if !(t_min < t < t_max) {
        None
    } else {
        spec_sphere_record(s, r, t)
    }
}

/// A term of the outward-normal inner product is never negative: the
/// normalising division keeps each component's sign.
proof fn lemma_term_nonneg(d: int, r: int)
    requires
        r > 0,
    ensures
        tdiv(d * 65536, r) * d >= 0,
{
    crate::fx::lemma_tdiv_bounds(d * 65536, r);
    if d >= 0 {
        assert(tdiv(d * 65536, r) * d >= 0) by (nonlinear_arith)
            requires
                tdiv(d * 65536, r) >= 0,
                d >= 0,
        ;
    } else {
        assert(tdiv(d * 65536, r) * d >= 0) by (nonlinear_arith)
            requires
                tdiv(d * 65536, r) <= 0,
                d <= 0,
        ;
    }
}

/// The dominant component contributes at least one whole unit to the
/// outward-normal inner product.
proof fn lemma_term_large(a: int, r: int)
    requires
        r >= 4,
        a >= 1,
        3 * a * a >= r * r,
    ensures
        tdiv(a * 65536, r) * a >= 65536,
{
    vstd::arithmetic::div_mod::lemma_fundamental_div_mod(a * 65536, r);
    vstd::arithmetic::div_mod::lemma_mod_bound(a * 65536, r);
    let q = (a * 65536) / r;
    assert(q * a >= 65536) by (nonlinear_arith)
        requires
            a * 65536 == r * q + (a * 65536) % r,
            0 <= (a * 65536) % r < r,
            r >= 4,
            a >= 1,
            3 * a * a >= r * r,
    ;
}

/// The outward normal a sphere hit stores points away from the center:
/// for a positive radius and a hit offset `d = p - center` lying on or
/// outside the surface, the inner product of the normal (each component
/// of `d` divided by the radius) with `d` is at least one sub-unit step.
pub proof fn lemma_outward_normal_points_away(dx: int, dy: int, dz: int, radius: int)
    requires
        radius >= 4,
        dx * dx + dy * dy + dz * dz >= radius * radius,
    ensures
        dot3(
            spec_fxdiv(dx, radius),
            spec_fxdiv(dy, radius),
            spec_fxdiv(dz, radius),
            dx,
            dy,
            dz,
        ) >= 1,
{
    lemma_term_nonneg(dx, radius);
    lemma_term_nonneg(dy, radius);
    lemma_term_nonneg(dz, radius);
    let big = if dx * dx >= dy * dy && dx * dx >= dz * dz {
        dx
    } else if dy * dy >= dz * dz {
        dy
    } else {
        dz
    };
    assert(3 * big * big >= radius * radius) by (nonlinear_arith)
        requires
            big == if dx * dx >= dy * dy && dx * dx >= dz * dz {
                dx
            } else if dy * dy >= dz * dz {
                dy
            } else {
                dz
            },
            dx * dx + dy * dy + dz * dz >= radius * radius,
    ;
    let a = iabs(big);
    assert(a >= 1 && a * a == big * big) by (nonlinear_arith)
        requires
            a == iabs(big),
            3 * big * big >= radius * radius,
            radius >= 4,
    ;
    assert(3 * a * a >= radius * radius) by (nonlinear_arith)
        requires
            a * a == big * big,
            3 * big * big >= radius * radius,
    ;
    lemma_term_large(a, radius);
    assert(tdiv(big * 65536, radius) * big == tdiv(a * 65536, radius) * a) by {
        if big >= 0 {
        } else {
            assert(big * 65536 == -(a * 65536) && a * 65536 >= 0) by (nonlinear_arith)
                requires
                    a == -big,
                    big < 0,
            ;
            crate::fx::lemma_tdiv_bounds(a * 65536, radius);
            assert(tdiv(big * 65536, radius) == -tdiv(a * 65536, radius));
            assert((-tdiv(a * 65536, radius)) * big == tdiv(a * 65536, radius) * a)
                by (nonlinear_arith)
                requires
                    big == -a,
            ;
        }
    }
    let num = spec_fxdiv(dx, radius) * dx + spec_fxdiv(dy, radius) * dy + spec_fxdiv(
        dz,
        radius,
    ) * dz;
    assert(num >= 65536);
    vstd::arithmetic::div_mod::lemma_div_is_ordered(65536, num, 65536);
    crate::fx::lemma_tdiv_exact(65536, 65536, 1, 0);
    crate::fx::lemma_tdiv_bounds(num, 65536);
}

/// A front-face sphere hit's stored normal points away from the center:
/// whenever the recorded point's offset from the center lies on or
/// outside the surface of a sphere of measurable radius, the inner
/// product of the record's normal with that offset is at least one
/// sub-unit step.
pub proof fn lemma_sphere_record_normal_outward(s: Sphere, r: Ray, t: int)
    requires
        spec_sphere_record(s, r, t) is Some,
        spec_sphere_record(s, r, t)->Some_0.front_face,
        s.radius >= 4,
        ({
            let rec = spec_sphere_record(s, r, t)->Some_0;
            (rec.p.x - s.center.x) * (rec.p.x - s.center.x) + (rec.p.y - s.center.y) * (rec.p.y
                - s.center.y) + (rec.p.z - s.center.z) * (rec.p.z - s.center.z) >= s.radius
                * s.radius
        }),
    ensures
        ({
            let rec = spec_sphere_record(s, r, t)->Some_0;
            dot3(
                rec.normal.x as int,
                rec.normal.y as int,
                rec.normal.z as int,
                rec.p.x - s.center.x,
                rec.p.y - s.center.y,
                rec.p.z - s.center.z,
            ) >= 1
        }),
{
    let rec = spec_sphere_record(s, r, t)->Some_0;
    let px = spec_at(r, t).x;
    let py = spec_at(r, t).y;
    let pz = spec_at(r, t).z;
    assert(rec.p.x == px && rec.p.y == py && rec.p.z == pz);
    let dx = px - s.center.x;
    let dy = py - s.center.y;
    let dz = pz - s.center.z;
    assert(rec.normal.x == spec_fxdiv(dx, s.radius as int) && rec.normal.y == spec_fxdiv(
        dy,
        s.radius as int,
    ) && rec.normal.z == spec_fxdiv(dz, s.radius as int));
    lemma_outward_normal_points_away(dx, dy, dz, s.radius as int);
}

impl Sphere {
    pub fn new(center: Point3, radius: i64, mat: usize) -> (r: Sphere)
        ensures
            r == (Sphere { center, radius, mat }),
    {
        Sphere { center, radius, mat }
    }

    /// Intersect a ray with the sphere; exact per `spec_sphere_hit`.
    pub fn hit(&self, ray: &Ray, t_min: i64, t_max: i64) -> (res: Option<HitRecord>)
        requires
            sphere_wf(*self),
            vec_bounded(ray.orig, RAY_COORD_MAX as int),
            vec_bounded(ray.dir, RAY_COORD_MAX as int),
            0 <= t_min <= t_max <= T_LIMIT,
        ensures
            res == spec_sphere_hit(*self, *ray, t_min as int, t_max as int),
            res is Some ==> hit_record_wf(res->Some_0),
    {
        proof {
            lemma_dot_bound(ray.dir, ray.dir, RAY_COORD_MAX as int, RAY_COORD_MAX as int);
        }
        let a = dot(ray.direction(), ray.direction());
        let oc = ray.origin().sub(self.center);
        proof {
            lemma_dot_bound(oc, ray.dir, 0x300_0000, RAY_COORD_MAX as int);
            lemma_dot_bound(oc, oc, 0x300_0000, 0x300_0000);
            lemma_fxmul_bound(self.radius as int, self.radius as int, COORD_MAX as int, COORD_MAX as int);
        }
        let half_b = dot(oc, ray.direction());
        let c = dot(oc, oc) - fxmul(self.radius, self.radius);
        proof {
            lemma_fxmul_bound(half_b as int, half_b as int, 0x20_0000_0000, 0x20_0000_0000);
            lemma_fxmul_bound(a as int, c as int, 0x10_0000_0000, 0x20_0000_0000);
        }
        let disc = fxmul(half_b, half_b) - fxmul(a, c);
        if a <= 0 || disc < 0 {
            return None;
        }
        let sqrt_d = fxsqrt(disc);
        proof {
            lemma_sqrt_le(disc * SCALE, 0x80_0000_0000);
        }
        let mut chosen: i64 = 0;
        let mut found = false;
        if let Some(t1) = fxdiv_checked(-half_b - sqrt_d, a) {
            if t_min < t1 && t1 < t_max {
                chosen = t1;
                found = true;
            }
        }
        if !found {
            if let Some(t2) = fxdiv_checked(-half_b + sqrt_d, a) {
                if t_min < t2 && t2 < t_max {
                    chosen = t2;
                    found = true;
                }
            }
        }
        if !found {
            return None;
        }
        let p = ray.at(chosen);
        if p.x > COORD_MAX || p.x < -COORD_MAX || p.y > COORD_MAX || p.y < -COORD_MAX || p.z
            > COORD_MAX || p.z < -COORD_MAX || self.radius == 0 {
            return None;
        }
        let onx = fxdiv_checked(p.x - self.center.x, self.radius);
        let ony = fxdiv_checked(p.y - self.center.y, self.radius);
        let onz = fxdiv_checked(p.z - self.center.z, self.radius);
        let (nx, ny, nz): (i64, i64, i64) = match (onx, ony, onz) {
            (Some(nx), Some(ny), Some(nz)) => (nx, ny, nz),
            _ => {
                return None;
            },
        };
        if nx > NORMAL_MAX || nx < -NORMAL_MAX || ny > NORMAL_MAX || ny < -NORMAL_MAX || nz
            > NORMAL_MAX || nz < -NORMAL_MAX {
            return None;
        }
        let outward = Vec3 { x: nx, y: ny, z: nz };
        let mut rec = HitRecord::new();
        rec.p = p;
        rec.t = chosen;
        rec.mat = self.mat;
        rec.set_face_normal(ray, outward);
        Some(rec)
    }
}

} // verus!
