//! A ray: an origin and a direction, evaluated at a scalar parameter.

use vstd::prelude::*;

verus! {

use crate::fx::{fits, fxmul, iabs, lemma_fxmul_bound, spec_fxmul};
use crate::vec3::{vec_bounded, IVec3, Point3, Vec3, RAY_COORD_MAX, T_LIMIT};

#[derive(Clone, Copy, PartialEq, Eq, Structural, Debug)]
pub struct Ray {
    pub orig: Point3,
    pub dir: Vec3,
}

/// The exact point a ray reaches at parameter `t`.
pub open spec fn spec_at(r: Ray, t: int) -> IVec3 {
    IVec3 {
        x: r.orig.x + spec_fxmul(r.dir.x as int, t),
        y: r.orig.y + spec_fxmul(r.dir.y as int, t),
        z: r.orig.z + spec_fxmul(r.dir.z as int, t),
    }
}

impl Ray {
    pub fn new(origin: Point3, direction: Vec3) -> (r: Ray)
        ensures
            r.orig == origin,
            r.dir == direction,
    {
        Ray { orig: origin, dir: direction }
    }

    pub fn origin(&self) -> (r: Point3)
        ensures
            r == self.orig,
    {
        self.orig
    }

    pub fn direction(&self) -> (r: Vec3)
        ensures
            r == self.dir,
    {
        self.dir
    }

    /// The point reached after travelling `t` along the direction.
    pub fn at(&self, t: i64) -> (r: Point3)
        requires
            vec_bounded(self.orig, RAY_COORD_MAX as int),
            vec_bounded(self.dir, RAY_COORD_MAX as int),
            -(T_LIMIT as int) <= t <= T_LIMIT as int,
        ensures
            r.x == spec_at(*self, t as int).x,
            r.y == spec_at(*self, t as int).y,
            r.z == spec_at(*self, t as int).z,
    {
        proof {
            lemma_fxmul_bound(
                self.dir.x as int,
                t as int,
                RAY_COORD_MAX as int,
                T_LIMIT as int,
            );
            lemma_fxmul_bound(
                self.dir.y as int,
                t as int,
                RAY_COORD_MAX as int,
                T_LIMIT as int,
            );
            lemma_fxmul_bound(
                self.dir.z as int,
                t as int,
                RAY_COORD_MAX as int,
                T_LIMIT as int,
            );
        }
        Vec3 {
            x: self.orig.x + fxmul(self.dir.x, t),
            y: self.orig.y + fxmul(self.dir.y, t),
            z: self.orig.z + fxmul(self.dir.z, t),
        }
    }
}

impl Default for Ray {
    /// The ray resting at the origin.
    fn default() -> (r: Ray)
        ensures
            r.orig == (Vec3 { x: 0, y: 0, z: 0 }),
            r.dir == (Vec3 { x: 0, y: 0, z: 0 }),
    {
        Ray { orig: Vec3 { x: 0, y: 0, z: 0 }, dir: Vec3 { x: 0, y: 0, z: 0 } }
    }
}

} // verus!
