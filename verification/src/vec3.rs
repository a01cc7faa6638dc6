//! Three-component fixed-point vectors, used as points, directions and
//! colors.
//!
//! Every operation's contract gives the exact value of each component,
//! rounding included. Composite results are stated over `IVec3`, a ghost
//! triple of unbounded integers, so no contract ever truncates silently.

use vstd::prelude::*;

verus! {

use crate::fx::{
    fits, fxdiv, fxmul, fxsqrt, iabs, spec_fxdiv, spec_fxmul, sqrt_floor, tdiv, SCALE,
};
use vstd::arithmetic::div_mod::lemma_div_is_ordered;

/// Coordinate bound for world geometry: centers, corners and hit points.
pub const COORD_MAX: i64 = 0x100_0000;

/// Coordinate bound for ray origins and directions handed to intersection.
pub const RAY_COORD_MAX: i64 = 0x200_0000;

/// Largest ray parameter the tracer ever passes as an upper bound.
pub const T_LIMIT: i64 = 0x100_0000_0000;

/// Threshold below which a vector counts as degenerate (about `2e-4`).
pub const NEAR_ZERO_EPS: i64 = 16;

#[derive(Clone, Copy, PartialEq, Eq, Structural, Debug)]
pub struct Vec3 {
    pub x: i64,
    pub y: i64,
    pub z: i64,
}

/// A point in space is a vector from the origin.
pub type Point3 = Vec3;

/// A mathematical (unbounded) vector value, for stating contracts.
pub ghost struct IVec3 {
    pub x: int,
    pub y: int,
    pub z: int,
}

/// All three components lie within `[-b, b]`.
pub open spec fn vec_bounded(v: Vec3, b: int) -> bool {
    -b <= v.x <= b && -b <= v.y <= b && -b <= v.z <= b
}

/// The exact fixed-point dot product, over plain integer components.
pub open spec fn dot3(ax: int, ay: int, az: int, bx: int, by: int, bz: int) -> int {
    tdiv(ax * bx + ay * by + az * bz, SCALE as int)
}

/// The exact fixed-point dot product.
pub open spec fn spec_dot(a: Vec3, b: Vec3) -> int {
    dot3(a.x as int, a.y as int, a.z as int, b.x as int, b.y as int, b.z as int)
}

/// The exact fixed-point cross product, over plain integer components.
pub open spec fn cross3(ax: int, ay: int, az: int, bx: int, by: int, bz: int) -> IVec3 {
    IVec3 {
        x: tdiv(ay * bz - az * by, SCALE as int),
        y: tdiv(az * bx - ax * bz, SCALE as int),
        z: tdiv(ax * by - ay * bx, SCALE as int),
    }
}

/// The exact fixed-point cross product.
pub open spec fn spec_cross(a: Vec3, b: Vec3) -> IVec3 {
    cross3(a.x as int, a.y as int, a.z as int, b.x as int, b.y as int, b.z as int)
}

/// The fixed-point length: floor square root of the scaled squared length.
pub open spec fn spec_len(v: Vec3) -> int {
    sqrt_floor(spec_dot(v, v) * SCALE)
}

/// The exact unit vector: each component divided by the length.
pub open spec fn spec_unit(v: Vec3) -> IVec3 {
    IVec3 {
        x: tdiv(v.x * SCALE, spec_len(v)),
        y: tdiv(v.y * SCALE, spec_len(v)),
        z: tdiv(v.z * SCALE, spec_len(v)),
    }
}

/// All components smaller in magnitude than `NEAR_ZERO_EPS`.
pub open spec fn spec_near_zero(v: Vec3) -> bool {
    iabs(v.x as int) < NEAR_ZERO_EPS && iabs(v.y as int) < NEAR_ZERO_EPS && iabs(v.z as int)
        < NEAR_ZERO_EPS
}

/// The exact mirror of `v` about the plane with normal `n`.
pub open spec fn spec_reflect(v: Vec3, n: Vec3) -> IVec3 {
    IVec3 {
        x: v.x - spec_fxmul(n.x as int, 2 * spec_dot(v, n)),
        y: v.y - spec_fxmul(n.y as int, 2 * spec_dot(v, n)),
        z: v.z - spec_fxmul(n.z as int, 2 * spec_dot(v, n)),
    }
}

/// Each cross-product component of bounded vectors is bounded by the
/// scaled-down doubled product of the bounds.
pub proof fn lemma_cross_bound(a: Vec3, b: Vec3, ba: int, bb: int)
    requires
        0 <= ba,
        0 <= bb,
        vec_bounded(a, ba),
        vec_bounded(b, bb),
    ensures
        iabs(spec_cross(a, b).x) * (SCALE as int) <= 2 * ba * bb,
        iabs(spec_cross(a, b).y) * (SCALE as int) <= 2 * ba * bb,
        iabs(spec_cross(a, b).z) * (SCALE as int) <= 2 * ba * bb,
        iabs(a.y * b.z - a.z * b.y) <= 2 * ba * bb,
        iabs(a.z * b.x - a.x * b.z) <= 2 * ba * bb,
        iabs(a.x * b.y - a.y * b.x) <= 2 * ba * bb,
{
    assert(iabs(a.y * b.z - a.z * b.y) <= 2 * ba * bb && iabs(a.z * b.x - a.x * b.z) <= 2 * ba
        * bb && iabs(a.x * b.y - a.y * b.x) <= 2 * ba * bb) by (nonlinear_arith)
        requires
            0 <= ba,
            0 <= bb,
            vec_bounded(a, ba),
            vec_bounded(b, bb),
    ;
    lemma_cross_comp_bound(a.y * b.z - a.z * b.y, 2 * ba * bb);
    lemma_cross_comp_bound(a.z * b.x - a.x * b.z, 2 * ba * bb);
    lemma_cross_comp_bound(a.x * b.y - a.y * b.x, 2 * ba * bb);
}

/// Scaling down a bounded difference keeps the multiplied-back bound.
proof fn lemma_cross_comp_bound(n: int, m: int)
    requires
        iabs(n) <= m,
    ensures
        iabs(tdiv(n, SCALE as int)) * (SCALE as int) <= m,
{
    crate::fx::lemma_tdiv_bounds(n, SCALE as int);
    vstd::arithmetic::div_mod::lemma_fundamental_div_mod(iabs(n), SCALE as int);
    vstd::arithmetic::div_mod::lemma_mod_bound(iabs(n), SCALE as int);
}

/// A squared component never exceeds the scaled squared length.
proof fn lemma_square_le_sum(a: int, b: int, c: int)
    ensures
        a * a <= a * a + b * b + c * c,
        0 <= a * a + b * b + c * c,
    decreases 0int,
{
    assert(a * a >= 0 && b * b >= 0 && c * c >= 0) by (nonlinear_arith);
}

/// The squared length of a vector is nonnegative.
pub proof fn lemma_dot_self_nonneg(v: Vec3)
    ensures
        spec_dot(v, v) >= 0,
{
    lemma_square_le_sum(v.x as int, v.y as int, v.z as int);
    crate::fx::lemma_tdiv_bounds(v.x * v.x + v.y * v.y + v.z * v.z, SCALE as int);
}

/// A dot product of vectors bounded by `ba` and `bb` is bounded by
/// `3 * ba * bb / SCALE`.
pub proof fn lemma_dot_bound(a: Vec3, b: Vec3, ba: int, bb: int)
    requires
        0 <= ba,
        0 <= bb,
        vec_bounded(a, ba),
        vec_bounded(b, bb),
    ensures
        iabs(spec_dot(a, b)) <= (3 * ba * bb) / (SCALE as int),
        iabs(spec_dot(a, b)) * (SCALE as int) <= 3 * ba * bb,
        iabs(a.x * b.x + a.y * b.y + a.z * b.z) <= 3 * ba * bb,
{
    vstd::arithmetic::div_mod::lemma_fundamental_div_mod(
        iabs(a.x * b.x + a.y * b.y + a.z * b.z),
        SCALE as int,
    );
    vstd::arithmetic::div_mod::lemma_mod_bound(
        iabs(a.x * b.x + a.y * b.y + a.z * b.z),
        SCALE as int,
    );
    assert(iabs(a.x * b.x + a.y * b.y + a.z * b.z) <= 3 * ba * bb) by (nonlinear_arith)
        requires
            0 <= ba,
            0 <= bb,
            -ba <= a.x <= ba,
            -ba <= a.y <= ba,
            -ba <= a.z <= ba,
            -bb <= b.x <= bb,
            -bb <= b.y <= bb,
            -bb <= b.z <= bb,
    ;
    let s = a.x * b.x + a.y * b.y + a.z * b.z;
    crate::fx::lemma_tdiv_bounds(s, SCALE as int);
    lemma_div_is_ordered(iabs(s), 3 * ba * bb, SCALE as int);
}

impl Vec3 {
    pub fn new(x: i64, y: i64, z: i64) -> (r: Vec3)
        ensures
            r == (Vec3 { x, y, z }),
    {
        Vec3 { x, y, z }
    }

    /// The vector with all three components equal.
    pub fn uni(x: i64) -> (r: Vec3)
        ensures
            r == (Vec3 { x, y: x, z: x }),
    {
        Vec3 { x, y: x, z: x }
    }

    pub fn x(&self) -> (r: i64)
        ensures
            r == self.x,
    {
        self.x
    }

    pub fn y(&self) -> (r: i64)
        ensures
            r == self.y,
    {
        self.y
    }

    pub fn z(&self) -> (r: i64)
        ensures
            r == self.z,
    {
        self.z
    }

    /// Componentwise sum.
    pub fn add(self, o: Vec3) -> (r: Vec3)
        requires
            fits(self.x + o.x),
            fits(self.y + o.y),
            fits(self.z + o.z),
        ensures
            r.x == self.x + o.x,
            r.y == self.y + o.y,
            r.z == self.z + o.z,
    {
        Vec3 { x: self.x + o.x, y: self.y + o.y, z: self.z + o.z }
    }

    /// Componentwise difference.
    pub fn sub(self, o: Vec3) -> (r: Vec3)
        requires
            fits(self.x - o.x),
            fits(self.y - o.y),
            fits(self.z - o.z),
        ensures
            r.x == self.x - o.x,
            r.y == self.y - o.y,
            r.z == self.z - o.z,
    {
        Vec3 { x: self.x - o.x, y: self.y - o.y, z: self.z - o.z }
    }

    /// Componentwise negation.
    pub fn neg(self) -> (r: Vec3)
        requires
            fits(-self.x),
            fits(-self.y),
            fits(-self.z),
        ensures
            r.x == -self.x,
            r.y == -self.y,
            r.z == -self.z,
    {
        Vec3 { x: -self.x, y: -self.y, z: -self.z }
    }

    /// Componentwise fixed-point product (used for color attenuation).
    pub fn mul(self, o: Vec3) -> (r: Vec3)
        requires
            fits(spec_fxmul(self.x as int, o.x as int)),
            fits(spec_fxmul(self.y as int, o.y as int)),
            fits(spec_fxmul(self.z as int, o.z as int)),
        ensures
            r.x == spec_fxmul(self.x as int, o.x as int),
            r.y == spec_fxmul(self.y as int, o.y as int),
            r.z == spec_fxmul(self.z as int, o.z as int),
    {
        Vec3 {
            x: fxmul(self.x, o.x),
            y: fxmul(self.y, o.y),
            z: fxmul(self.z, o.z),
        }
    }

    /// Each component multiplied by the scalar `t`.
    pub fn scale(self, t: i64) -> (r: Vec3)
        requires
            fits(spec_fxmul(self.x as int, t as int)),
            fits(spec_fxmul(self.y as int, t as int)),
            fits(spec_fxmul(self.z as int, t as int)),
        ensures
            r.x == spec_fxmul(self.x as int, t as int),
            r.y == spec_fxmul(self.y as int, t as int),
            r.z == spec_fxmul(self.z as int, t as int),
    {
        Vec3 {
            x: fxmul(self.x, t),
            y: fxmul(self.y, t),
            z: fxmul(self.z, t),
        }
    }

    /// Each component divided by the scalar `t`.
    pub fn div_scalar(self, t: i64) -> (r: Vec3)
        requires
            t != 0,
            fits(spec_fxdiv(self.x as int, t as int)),
            fits(spec_fxdiv(self.y as int, t as int)),
            fits(spec_fxdiv(self.z as int, t as int)),
        ensures
            r.x == spec_fxdiv(self.x as int, t as int),
            r.y == spec_fxdiv(self.y as int, t as int),
            r.z == spec_fxdiv(self.z as int, t as int),
    {
        Vec3 {
            x: fxdiv(self.x, t),
            y: fxdiv(self.y, t),
            z: fxdiv(self.z, t),
        }
    }

    /// The scaled squared length, rounded as computed.
    pub fn length_squared(&self) -> (r: i64)
        requires
            vec_bounded(*self, 0x4000_0000_0000_0000),
            fits(spec_dot(*self, *self)),
        ensures
            r == spec_dot(*self, *self),
            r >= 0,
    {
        proof {
            lemma_dot_self_nonneg(*self);
        }
        dot(*self, *self)
    }

    /// The fixed-point length.
    pub fn length(&self) -> (r: i64)
        requires
            vec_bounded(*self, 0x4000_0000_0000_0000),
            fits(spec_dot(*self, *self)),
        ensures
            r == spec_len(*self),
            r >= 0,
    {
        let ls = self.length_squared();
        fxsqrt(ls)
    }

    /// Whether the vector is close to zero in every component.
    pub fn near_zero(&self) -> (r: bool)
        ensures
            r == spec_near_zero(*self),
    {
        let nx: i64 = if self.x >= 0 {
            self.x
        } else if self.x == i64::MIN {
            i64::MAX
        } else {
            -self.x
        };
        let ny: i64 = if self.y >= 0 {
            self.y
        } else if self.y == i64::MIN {
            i64::MAX
        } else {
            -self.y
        };
        let nz: i64 = if self.z >= 0 {
            self.z
        } else if self.z == i64::MIN {
            i64::MAX
        } else {
            -self.z
        };
        nx < NEAR_ZERO_EPS && ny < NEAR_ZERO_EPS && nz < NEAR_ZERO_EPS
    }
}

impl Default for Vec3 {
    /// The zero vector.
    fn default() -> (r: Vec3)
        ensures
            r == (Vec3 { x: 0, y: 0, z: 0 }),
    {
        Vec3 { x: 0, y: 0, z: 0 }
    }
}

/// The fixed-point dot product; exact per `spec_dot`.
pub fn dot(u: Vec3, v: Vec3) -> (r: i64)
    requires
        vec_bounded(u, 0x4000_0000_0000_0000),
        vec_bounded(v, 0x4000_0000_0000_0000),
        fits(spec_dot(u, v)),
    ensures
        r == spec_dot(u, v),
{
    proof {
        lemma_dot_bound(u, v, 0x4000_0000_0000_0000, 0x4000_0000_0000_0000);
        assert(iabs(u.x * v.x) <= 0x4000_0000_0000_0000 * 0x4000_0000_0000_0000 && iabs(
            u.y * v.y,
        ) <= 0x4000_0000_0000_0000 * 0x4000_0000_0000_0000 && iabs(u.z * v.z)
            <= 0x4000_0000_0000_0000 * 0x4000_0000_0000_0000) by (nonlinear_arith)
            requires
                vec_bounded(u, 0x4000_0000_0000_0000),
                vec_bounded(v, 0x4000_0000_0000_0000),
        ;
    }
    let px: i128 = (u.x as i128) * (v.x as i128);
    let py: i128 = (u.y as i128) * (v.y as i128);
    let pz: i128 = (u.z as i128) * (v.z as i128);
    let s: i128 = px + py + pz;
    let q: i128 = crate::fx::tdiv_i128(s, 65536);
    q as i64
}

/// The fixed-point cross product; exact per `spec_cross`.
pub fn cross(u: Vec3, v: Vec3) -> (r: Vec3)
    requires
        vec_bounded(u, 0x4000_0000_0000_0000),
        vec_bounded(v, 0x4000_0000_0000_0000),
        fits(spec_cross(u, v).x),
        fits(spec_cross(u, v).y),
        fits(spec_cross(u, v).z),
    ensures
        r.x == spec_cross(u, v).x,
        r.y == spec_cross(u, v).y,
        r.z == spec_cross(u, v).z,
{
    proof {
        assert(iabs(u.y * v.z) <= 0x4000_0000_0000_0000 * 0x4000_0000_0000_0000 && iabs(
            u.z * v.y,
        ) <= 0x4000_0000_0000_0000 * 0x4000_0000_0000_0000 && iabs(u.z * v.x)
            <= 0x4000_0000_0000_0000 * 0x4000_0000_0000_0000 && iabs(u.x * v.z)
            <= 0x4000_0000_0000_0000 * 0x4000_0000_0000_0000 && iabs(u.x * v.y)
            <= 0x4000_0000_0000_0000 * 0x4000_0000_0000_0000 && iabs(u.y * v.x)
            <= 0x4000_0000_0000_0000 * 0x4000_0000_0000_0000) by (nonlinear_arith)
            requires
                vec_bounded(u, 0x4000_0000_0000_0000),
                vec_bounded(v, 0x4000_0000_0000_0000),
        ;
    }
    let dx: i128 = (u.y as i128) * (v.z as i128) - (u.z as i128) * (v.y as i128);
    let dy: i128 = (u.z as i128) * (v.x as i128) - (u.x as i128) * (v.z as i128);
    let dz: i128 = (u.x as i128) * (v.y as i128) - (u.y as i128) * (v.x as i128);
    let rx: i128 = crate::fx::tdiv_i128(dx, 65536);
    let ry: i128 = crate::fx::tdiv_i128(dy, 65536);
    let rz: i128 = crate::fx::tdiv_i128(dz, 65536);
    Vec3 { x: rx as i64, y: ry as i64, z: rz as i64 }
}

/// The vector scaled to (fixed-point) unit length.
///
/// The caller must hand in a vector of measurably positive length; the
/// result's components are bounded by two units.
pub fn unit_vector(v: Vec3) -> (r: Vec3)
    requires
        vec_bounded(v, 0x4000_0000),
        spec_dot(v, v) >= 1,
    ensures
        r.x == spec_unit(v).x,
        r.y == spec_unit(v).y,
        r.z == spec_unit(v).z,
        vec_bounded(r, 2 * SCALE),
{
    proof {
        lemma_dot_bound(v, v, 0x4000_0000, 0x4000_0000);
        lemma_unit_bounds(v);
    }
    let len = v.length();
    proof {
        crate::fx::lemma_sqrt_floor(spec_dot(v, v) * SCALE);
    }
    Vec3 { x: fxdiv(v.x, len), y: fxdiv(v.y, len), z: fxdiv(v.z, len) }
}

/// The unit vector of a vector of measurably positive length has components
/// bounded by two units, and the length itself is at least `SCALE / 256`.
pub proof fn lemma_unit_bounds(v: Vec3)
    requires
        vec_bounded(v, 0x4000_0000),
        spec_dot(v, v) >= 1,
    ensures
        spec_len(v) >= 256,
        iabs(spec_unit(v).x) <= 2 * SCALE,
        iabs(spec_unit(v).y) <= 2 * SCALE,
        iabs(spec_unit(v).z) <= 2 * SCALE,
{
    let d = spec_dot(v, v);
    let s = v.x * v.x + v.y * v.y + v.z * v.z;
    let len = spec_len(v);
    lemma_square_le_sum(v.x as int, v.y as int, v.z as int);
    lemma_square_le_sum(v.y as int, v.x as int, v.z as int);
    lemma_square_le_sum(v.z as int, v.x as int, v.y as int);
    crate::fx::lemma_sqrt_floor(d * SCALE);
    // The scaled squared length is reconstructed from its rounded form.
    vstd::arithmetic::div_mod::lemma_fundamental_div_mod(s, SCALE as int);
    vstd::arithmetic::div_mod::lemma_mod_bound(s, SCALE as int);
    assert(d == s / (SCALE as int));
    assert(len >= 256) by (nonlinear_arith)
        requires
            d >= 1,
            len >= 0,
            d * (SCALE as int) < (len + 1) * (len + 1),
            SCALE == 65536,
    ;
    lemma_unit_comp(v.x as int, s, d, len);
    lemma_unit_comp(v.y as int, s, d, len);
    lemma_unit_comp(v.z as int, s, d, len);
}

/// One component of a unit vector is bounded by two units.
proof fn lemma_unit_comp(c: int, s: int, d: int, len: int)
    requires
        c * c <= s,
        s == (SCALE as int) * d + s % (SCALE as int),
        0 <= s % (SCALE as int) < SCALE,
        len * len <= d * (SCALE as int) < (len + 1) * (len + 1),
        len >= 256,
    ensures
        iabs(tdiv(c * SCALE, len)) <= 2 * SCALE,
{
    assert(iabs(c) <= 2 * len) by (nonlinear_arith)
        requires
            c * c <= s,
            s == (SCALE as int) * d + s % (SCALE as int),
            0 <= s % (SCALE as int) < SCALE,
            len * len <= d * (SCALE as int) < (len + 1) * (len + 1),
            len >= 256,
            SCALE == 65536,
    ;
    crate::fx::lemma_tdiv_bounds(c * SCALE, len);
    assert(iabs(c * SCALE) == iabs(c) * SCALE) by (nonlinear_arith);
    assert(iabs(c * SCALE) / len <= 2 * SCALE) by (nonlinear_arith)
        requires
            iabs(c) <= 2 * len,
            len >= 256,
            iabs(c * SCALE) == iabs(c) * SCALE,
            SCALE == 65536,
    ;
}

/// One term of the reflection formula stays far inside the scalar range.
proof fn lemma_reflect_term_bound(c: int, d: int)
    requires
        -0x10_0000 <= c <= 0x10_0000,
        iabs(d) <= 0x30_0000_0000_0000,
    ensures
        iabs(spec_fxmul(c, 2 * d)) <= 0x600_0000_0000_0000,
{
    assert(iabs(c * (2 * d)) <= 0x10_0000 * (2 * 0x30_0000_0000_0000)) by (nonlinear_arith)
        requires
            iabs(d) <= 0x30_0000_0000_0000,
            -0x10_0000 <= c <= 0x10_0000,
    ;
    crate::fx::lemma_tdiv_bounds(c * (2 * d), SCALE as int);
    lemma_div_is_ordered(
        iabs(c * (2 * d)),
        (0x10_0000 * (2 * 0x30_0000_0000_0000)) as int,
        SCALE as int,
    );
}

/// `v` reflected about the plane with (unit) normal `n`; exact per
/// `spec_reflect`.
pub fn reflect(v: Vec3, n: Vec3) -> (r: Vec3)
    requires
        vec_bounded(v, 0x100_0000_0000),
        vec_bounded(n, 0x10_0000),
    ensures
        r.x == spec_reflect(v, n).x,
        r.y == spec_reflect(v, n).y,
        r.z == spec_reflect(v, n).z,
{
    proof {
        lemma_dot_bound(v, n, 0x100_0000_0000, 0x10_0000);
        lemma_reflect_term_bound(n.x as int, spec_dot(v, n));
        lemma_reflect_term_bound(n.y as int, spec_dot(v, n));
        lemma_reflect_term_bound(n.z as int, spec_dot(v, n));
    }
    let d = dot(v, n);
    let t2 = 2 * d;
    Vec3 {
        x: v.x - fxmul(n.x, t2),
        y: v.y - fxmul(n.y, t2),
        z: v.z - fxmul(n.z, t2),
    }
}

/// The exact refraction of `uv` at a surface with normal `n` and
/// refraction ratio `eta`, by Snell's law with the cosine capped at one:
/// the perpendicular part is `eta` times `uv + cos * n`; the parallel part
/// rebuilds unit length from what remains.
pub open spec fn spec_refract(uv: Vec3, n: Vec3, eta: int) -> IVec3 {
    let cos = if spec_dot(uv, n) <= -65536 {
        65536int
    } else {
        -spec_dot(uv, n)
    };
    let sx = uv.x + spec_fxmul(n.x as int, cos);
    let sy = uv.y + spec_fxmul(n.y as int, cos);
    let sz = uv.z + spec_fxmul(n.z as int, cos);
    let px = spec_fxmul(sx, eta);
    let py = spec_fxmul(sy, eta);
    let pz = spec_fxmul(sz, eta);
    let k = dot3(px, py, pz, px, py, pz);
    let m = iabs(65536 - k);
    let sq = sqrt_floor(m * (SCALE as int));
    IVec3 {
        x: px + spec_fxmul(n.x as int, -sq),
        y: py + spec_fxmul(n.y as int, -sq),
        z: pz + spec_fxmul(n.z as int, -sq),
    }
}

/// Refract `uv` about the normal `n` with refraction ratio `eta`; exact
/// per `spec_refract`.
pub fn refract(uv: Vec3, n: Vec3, etai_over_etat: i64) -> (r: Vec3)
    requires
        vec_bounded(uv, (4 * 65536) as int),
        vec_bounded(n, (4 * 65536) as int),
        iabs(etai_over_etat as int) <= 0x100_0000,
    ensures
        r.x == spec_refract(uv, n, etai_over_etat as int).x,
        r.y == spec_refract(uv, n, etai_over_etat as int).y,
        r.z == spec_refract(uv, n, etai_over_etat as int).z,
{
    proof {
        lemma_dot_bound(uv, n, (4 * 65536) as int, (4 * 65536) as int);
    }
    let d = dot(uv, n);
    let cos: i64 = if d <= -65536 {
        65536
    } else {
        -d
    };
    proof {
        crate::fx::lemma_fxmul_bound(n.x as int, cos as int, 0x4_0000, 0x30_0000);
        crate::fx::lemma_fxmul_bound(n.y as int, cos as int, 0x4_0000, 0x30_0000);
        crate::fx::lemma_fxmul_bound(n.z as int, cos as int, 0x4_0000, 0x30_0000);
    }
    let sum = uv.add(n.scale(cos));
    proof {
        crate::fx::lemma_fxmul_bound(sum.x as int, etai_over_etat as int, 0x100_0000, 0x100_0000);
        crate::fx::lemma_fxmul_bound(sum.y as int, etai_over_etat as int, 0x100_0000, 0x100_0000);
        crate::fx::lemma_fxmul_bound(sum.z as int, etai_over_etat as int, 0x100_0000, 0x100_0000);
    }
    let perp = sum.scale(etai_over_etat);
    proof {
        lemma_dot_bound(perp, perp, 0x1_0000_0000, 0x1_0000_0000);
    }
    let k = dot(perp, perp);
    let m: i64 = if 65536 - k >= 0 {
        65536 - k
    } else {
        -(65536 - k)
    };
    let sq = fxsqrt(m);
    proof {
        crate::fx::lemma_sqrt_le(m * (SCALE as int), 0x80_0000_0000);
        crate::fx::lemma_fxmul_bound(n.x as int, -sq as int, 0x4_0000, 0x80_0000_0000);
        crate::fx::lemma_fxmul_bound(n.y as int, -sq as int, 0x4_0000, 0x80_0000_0000);
        crate::fx::lemma_fxmul_bound(n.z as int, -sq as int, 0x4_0000, 0x80_0000_0000);
    }
    let par = n.scale(-sq);
    par.add(perp)
}

/// One squared component of the exact reflection, expanded binomially.
proof fn lemma_square_of_reflect_component(k: int, d: int, v: int, n: int, r: int)
    requires
        r == k * v - 2 * d * n,
    ensures
        r * r == (k * k) * (v * v) - (4 * (k * d)) * (v * n) + (4 * (d * d)) * (n * n),
{
    assert(r * r == (k * v) * (k * v) - 2 * ((k * v) * (2 * d * n)) + (2 * d * n) * (2 * d * n))
        by (nonlinear_arith)
        requires
            r == k * v - 2 * d * n,
    ;
    assert((k * v) * (k * v) == (k * k) * (v * v)) by (nonlinear_arith);
    assert((k * v) * (2 * d * n) == 2 * ((k * d) * (v * n))) by (nonlinear_arith);
    assert((2 * d * n) * (2 * d * n) == (4 * (d * d)) * (n * n)) by (nonlinear_arith);
    assert(2 * (2 * ((k * d) * (v * n))) == (4 * (k * d)) * (v * n)) by (nonlinear_arith);
}

/// Reflection about a unit normal preserves the squared length and flips
/// the normal component of the direction: stated over the exact, unscaled
/// integer reflection `k*v - 2*(v.n)*n`, where `k` is the squared length
/// of the normal (`spec_reflect` computes this quantity up to rounding
/// and scale). The reflection's squared length is the squared length of
/// `v` scaled by `k` squared, and its inner product with `n` is the
/// negated inner product of `v` with `n`, scaled by `k`.
pub proof fn lemma_reflect_exact(
    vx: int,
    vy: int,
    vz: int,
    nx: int,
    ny: int,
    nz: int,
    k: int,
)
    requires
        nx * nx + ny * ny + nz * nz == k,
    ensures
        ({
            let d = vx * nx + vy * ny + vz * nz;
            let rx = k * vx - 2 * d * nx;
            let ry = k * vy - 2 * d * ny;
            let rz = k * vz - 2 * d * nz;
            rx * rx + ry * ry + rz * rz == k * k * (vx * vx + vy * vy + vz * vz) && rx * nx + ry
                * ny + rz * nz == -(k * d)
        }),
{
    let d = vx * nx + vy * ny + vz * nz;
    let rx = k * vx - 2 * d * nx;
    let ry = k * vy - 2 * d * ny;
    let rz = k * vz - 2 * d * nz;
    lemma_square_of_reflect_component(k, d, vx, nx, rx);
    lemma_square_of_reflect_component(k, d, vy, ny, ry);
    lemma_square_of_reflect_component(k, d, vz, nz, rz);
    assert((k * k) * (vx * vx) + (k * k) * (vy * vy) + (k * k) * (vz * vz) == k * k * (vx * vx
        + vy * vy + vz * vz)) by (nonlinear_arith);
    assert((4 * (k * d)) * (vx * nx) + (4 * (k * d)) * (vy * ny) + (4 * (k * d)) * (vz * nz) == (4
        * (k * d)) * d) by (nonlinear_arith)
        requires
            d == vx * nx + vy * ny + vz * nz,
    ;
    assert((4 * (d * d)) * (nx * nx) + (4 * (d * d)) * (ny * ny) + (4 * (d * d)) * (nz * nz) == (4
        * (d * d)) * k) by (nonlinear_arith)
        requires
            nx * nx + ny * ny + nz * nz == k,
    ;
    assert((4 * (k * d)) * d == (4 * (d * d)) * k) by (nonlinear_arith);
    assert(rx * nx == k * (vx * nx) - 2 * d * (nx * nx)) by (nonlinear_arith)
        requires
            rx == k * vx - 2 * d * nx,
    ;
    assert(ry * ny == k * (vy * ny) - 2 * d * (ny * ny)) by (nonlinear_arith)
        requires
            ry == k * vy - 2 * d * ny,
    ;
    assert(rz * nz == k * (vz * nz) - 2 * d * (nz * nz)) by (nonlinear_arith)
        requires
            rz == k * vz - 2 * d * nz,
    ;
    assert(k * (vx * nx) + k * (vy * ny) + k * (vz * nz) == k * d) by (nonlinear_arith)
        requires
            d == vx * nx + vy * ny + vz * nz,
    ;
    assert(2 * d * (nx * nx) + 2 * d * (ny * ny) + 2 * d * (nz * nz) == 2 * (d * k))
        by (nonlinear_arith)
        requires
            nx * nx + ny * ny + nz * nz == k,
    ;
    assert(2 * (d * k) == k * d + k * d) by (nonlinear_arith);
}

/// The unit vector as a machine vector (components are representable for
/// every vector `unit_vector` accepts).
pub open spec fn spec_unit_vec(v: Vec3) -> Vec3 {
    Vec3 { x: spec_unit(v).x as i64, y: spec_unit(v).y as i64, z: spec_unit(v).z as i64 }
}

/// The reflection as a machine vector.
pub open spec fn spec_reflect_vec(v: Vec3, n: Vec3) -> Vec3 {
    Vec3 {
        x: spec_reflect(v, n).x as i64,
        y: spec_reflect(v, n).y as i64,
        z: spec_reflect(v, n).z as i64,
    }
}

/// The refraction as a machine vector.
pub open spec fn spec_refract_vec(uv: Vec3, n: Vec3, eta: int) -> Vec3 {
    Vec3 {
        x: spec_refract(uv, n, eta).x as i64,
        y: spec_refract(uv, n, eta).y as i64,
        z: spec_refract(uv, n, eta).z as i64,
    }
}

/// The unit-magnitude sign of a scalar, with zero counted as positive.
pub fn sign(s: i64) -> (r: i64)
    ensures
        r == if s < 0 {
            -65536int
        } else {
            65536int
        },
{
    if s < 0 {
        -65536
    } else {
        65536
    }
}

/// The vector mapped from `[-1, 1]` into `[0, 1]` componentwise.
pub fn fit01(v: Vec3) -> (r: Vec3)
    requires
        vec_bounded(v, 0x100_0000_0000),
    ensures
        r.x == spec_fxmul(v.x + 65536, 32768),
        r.y == spec_fxmul(v.y + 65536, 32768),
        r.z == spec_fxmul(v.z + 65536, 32768),
{
    proof {
        crate::fx::lemma_fxmul_bound(v.x + 65536, 32768, 0x101_0000_0000, 32768);
        crate::fx::lemma_fxmul_bound(v.y + 65536, 32768, 0x101_0000_0000, 32768);
        crate::fx::lemma_fxmul_bound(v.z + 65536, 32768, 0x101_0000_0000, 32768);
    }
    Vec3 {
        x: fxmul(v.x + 65536, 32768),
        y: fxmul(v.y + 65536, 32768),
        z: fxmul(v.z + 65536, 32768),
    }
}

impl Vec3 {
    /// A vector with each component drawn uniformly from `[0, 1)`.
    pub fn random(rng: &mut rand::rngs::StdRng) -> (r: Vec3)
        ensures
            vec_bounded(r, SCALE as int),
            r.x >= 0 && r.y >= 0 && r.z >= 0,
    {
        Vec3 {
            x: crate::rng::random_double(rng),
            y: crate::rng::random_double(rng),
            z: crate::rng::random_double(rng),
        }
    }

    /// A vector with each component drawn uniformly from `[min, max]`.
    pub fn random_range(min: i64, max: i64, rng: &mut rand::rngs::StdRng) -> (r: Vec3)
        requires
            iabs(min as int) <= 0x100_0000_0000,
            iabs(max as int) <= 0x100_0000_0000,
            min <= max,
        ensures
            min <= r.x <= max,
            min <= r.y <= max,
            min <= r.z <= max,
    {
        Vec3 {
            x: crate::rng::random_double_range(min, max, rng),
            y: crate::rng::random_double_range(min, max, rng),
            z: crate::rng::random_double_range(min, max, rng),
        }
    }
}

/// A point inside the unit sphere, by rejection sampling with a fixed
/// in-sphere fallback after a bounded number of draws.
pub fn random_in_unit_sphere(rng: &mut rand::rngs::StdRng) -> (r: Vec3)
    ensures
        vec_bounded(r, SCALE as int),
        spec_dot(r, r) < SCALE,
{
    let mut tries: u32 = 0;
    while tries < 64
        invariant
            true,
        decreases 64 - tries,
    {
        let p = Vec3::random_range(-65536, 65536, rng);
        proof {
            lemma_dot_bound(p, p, 65536, 65536);
        }
        let ls = p.length_squared();
        if ls < 65536 {
            return p;
        }
        tries = tries + 1;
    }
    let f = Vec3 { x: 32768, y: 0, z: 0 };
    proof {
        assert(f.x * f.x == 1073741824 && f.y * f.y == 0 && f.z * f.z == 0) by (nonlinear_arith)
            requires
                f.x == 32768,
                f.y == 0,
                f.z == 0,
        ;
        crate::fx::lemma_tdiv_exact(1073741824, 65536, 16384, 0);
        assert(spec_dot(f, f) == 16384);
    }
    f
}

/// A point inside the unit disk in the x/y plane, by rejection sampling
/// with a fixed in-disk fallback after a bounded number of draws.
pub fn random_in_unit_disk(rng: &mut rand::rngs::StdRng) -> (r: Vec3)
    ensures
        vec_bounded(r, SCALE as int),
        spec_dot(r, r) < SCALE,
        r.z == 0,
{
    let mut tries: u32 = 0;
    while tries < 64
        invariant
            true,
        decreases 64 - tries,
    {
        let x = crate::rng::random_double_range(-65536, 65536, rng);
        let y = crate::rng::random_double_range(-65536, 65536, rng);
        let p = Vec3 { x, y, z: 0 };
        proof {
            lemma_dot_bound(p, p, 65536, 65536);
        }
        let ls = p.length_squared();
        if ls < 65536 {
            return p;
        }
        tries = tries + 1;
    }
    let f = Vec3 { x: 32768, y: 0, z: 0 };
    proof {
        assert(f.x * f.x == 1073741824 && f.y * f.y == 0 && f.z * f.z == 0) by (nonlinear_arith)
            requires
                f.x == 32768,
                f.y == 0,
                f.z == 0,
        ;
        crate::fx::lemma_tdiv_exact(1073741824, 65536, 16384, 0);
        assert(spec_dot(f, f) == 16384);
    }
    f
}

/// A direction of unit length: the exact fixed-point normalization of an
/// in-sphere sample whose squared length lies in the accepted band — at
/// least a quarter unit, so the normalization is well conditioned, and
/// below one unit.
pub fn random_unit_vector(rng: &mut rand::rngs::StdRng) -> (r: Vec3)
    ensures
        vec_bounded(r, 2 * SCALE),
        exists|p: Vec3|
            #[trigger] spec_dot(p, p) >= 16384 && spec_dot(p, p) < 65536 && vec_bounded(p, 65536)
                && r == spec_unit_vec(p),
{
    let mut tries: u32 = 0;
    while tries < 64
        invariant
            true,
        decreases 64 - tries,
    {
        let p = Vec3::random_range(-65536, 65536, rng);
        proof {
            lemma_dot_bound(p, p, 65536, 65536);
        }
        let ls = p.length_squared();
        if ls >= 16384 && ls < 65536 {
            let r = unit_vector(p);
            proof {
                assert(spec_dot(p, p) >= 16384 && spec_dot(p, p) < 65536 && vec_bounded(p, 65536)
                    && r == spec_unit_vec(p));
            }
            return r;
        }
        tries = tries + 1;
    }
    let p = Vec3 { x: 32768, y: 0, z: 0 };
    proof {
        assert(p.x * p.x == 1073741824 && p.y * p.y == 0 && p.z * p.z == 0) by (nonlinear_arith)
            requires
                p.x == 32768,
                p.y == 0,
                p.z == 0,
        ;
        crate::fx::lemma_tdiv_exact(1073741824, 65536, 16384, 0);
        assert(spec_dot(p, p) == 16384);
    }
    let r = unit_vector(p);
    proof {
        assert(spec_dot(p, p) >= 16384 && spec_dot(p, p) < 65536 && vec_bounded(p, 65536) && r
            == spec_unit_vec(p));
    }
    r
}

} // verus!
