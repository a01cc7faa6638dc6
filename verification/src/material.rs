//! Materials and their scattering rules.
//!
//! A material, handed a surface hit, either absorbs the light or produces
//! an attenuation color and an outgoing ray. The diffuse material always
//! scatters; the metal absorbs rays that would leave into the surface; the
//! dielectric chooses between reflection and refraction, by total internal
//! reflection or by a Schlick-reflectance coin flip.

use vstd::prelude::*;

verus! {

use crate::color::Color;
use crate::fx::{
    fxclamp, fxdiv, fxmul, iabs, lemma_fxmul_bound, lemma_sqrt_le, lemma_tdiv_bounds,
    lemma_tdiv_exact, spec_fxdiv, spec_fxmul, sqrt_floor, SCALE,
};
use crate::hittable::{hit_record_wf, HitRecord, NORMAL_MAX};
use crate::noise::{perlin_wf, spec_cell_noise, Perlin};
use crate::ray::Ray;
use crate::rng::random_double;
use crate::vec3::{
    dot, lemma_dot_bound, reflect, refract, spec_dot, spec_reflect_vec, spec_refract_vec,
    spec_unit_vec, unit_vector, vec_bounded, Vec3, RAY_COORD_MAX,
};

/// A color whose components all lie in the unit interval.
pub open spec fn color_unit(c: Color) -> bool {
    0 <= c.x <= 65536 && 0 <= c.y <= 65536 && 0 <= c.z <= 65536
}

/// A diffuse surface: a base color, optionally modulated by cell noise
/// keyed on the hit point when a checker size is set.
pub struct Lambertian {
    pub albedo: Color,
    pub checker: Option<i64>,
    pub perlin: Perlin,
}

/// A reflective surface: a base color and a fuzz radius in the unit
/// interval.
pub struct Metal {
    pub albedo: Color,
    pub fuzz: i64,
}

/// A refractive surface: its index of refraction. A negative index models
/// an inverted shell.
pub struct Dielectric {
    pub ir: i64,
}

pub open spec fn lambertian_wf(l: Lambertian) -> bool {
    color_unit(l.albedo) && perlin_wf(l.perlin)
}

pub open spec fn metal_wf(m: Metal) -> bool {
    color_unit(m.albedo) && 0 <= m.fuzz <= 65536
}

pub open spec fn dielectric_wf(d: Dielectric) -> bool {
    16384 <= iabs(d.ir as int) <= 262144
}

/// The attenuation a diffuse surface applies: its color, scaled by the
/// noise value at the hit point when checkering is on.
pub open spec fn spec_lambertian_attenuation(l: Lambertian, p: Vec3) -> Color {
    match l.checker {
        Option::None => l.albedo,
        Option::Some(_) => Vec3 {
            x: spec_fxmul(spec_cell_noise(l.perlin, p), l.albedo.x as int) as i64,
            y: spec_fxmul(spec_cell_noise(l.perlin, p), l.albedo.y as int) as i64,
            z: spec_fxmul(spec_cell_noise(l.perlin, p), l.albedo.z as int) as i64,
        },
    }
}

/// The refraction ratio a dielectric uses: the reciprocal of its index
/// when the ray comes from outside, the index itself when from inside.
pub open spec fn spec_refraction_ratio(d: Dielectric, front_face: bool) -> int {
    if front_face {
        spec_fxdiv(65536, d.ir as int)
    } else {
        d.ir as int
    }
}

/// The clamped cosine of incidence a dielectric computes: the inner
/// product of the negated unit incoming direction with the normal, capped
/// into one unit either way.
pub open spec fn spec_dielectric_cos(dir: Vec3, normal: Vec3) -> int {
    let u = spec_unit_vec(dir);
    let un = Vec3 { x: (-u.x) as i64, y: (-u.y) as i64, z: (-u.z) as i64 };
    let d = spec_dot(un, normal);
    if d < -65536 {
        -65536int
    } else if d > 65536 {
        65536int
    } else {
        d
    }
}

/// The exact Schlick reflectance: the base reflectance at normal
/// incidence, blended toward one by the fifth power of one minus the
/// cosine. A ratio of exactly minus one reflects fully.
pub open spec fn spec_reflectance(cos: int, ri: int) -> int {
    if 65536 + ri == 0 {
        65536
    } else {
        let r0 = spec_fxdiv(65536 - ri, 65536 + ri);
        let r0sq = spec_fxmul(r0, r0);
        let e = 65536 - cos;
        let e2 = spec_fxmul(e, e);
        let e4 = spec_fxmul(e2, e2);
        let e5 = spec_fxmul(e4, e);
        r0sq + spec_fxmul(65536 - r0sq, e5)
    }
}

/// Whether refraction is impossible: the ratio times the sine of the
/// incidence angle exceeds one (total internal reflection).
pub open spec fn spec_cannot_refract(ratio: int, cos: int) -> bool {
    let csq = spec_fxmul(cos, cos);
    let sin = sqrt_floor((65536 - csq) * 65536);
    spec_fxmul(ratio, sin) > 65536
}

/// Decide total internal reflection; exact per `spec_cannot_refract`.
pub fn dielectric_cannot_refract(ratio: i64, cos_theta: i64) -> (r: bool)
    requires
        -65536 <= cos_theta <= 65536,
        iabs(ratio as int) <= 0x100_0000,
    ensures
        r == spec_cannot_refract(ratio as int, cos_theta as int),
{
    proof {
        lemma_fxmul_bound(cos_theta as int, cos_theta as int, 65536, 65536);
        assert((cos_theta as int) * (cos_theta as int) >= 0) by (nonlinear_arith);
        lemma_tdiv_bounds((cos_theta as int) * (cos_theta as int), SCALE as int);
    }
    let csq = fxmul(cos_theta, cos_theta);
    let rem = 65536 - csq;
    proof {
        lemma_sqrt_le(rem * 65536, 65536);
    }
    let sin = crate::fx::fxsqrt(rem);
    proof {
        lemma_fxmul_bound(ratio as int, sin as int, 0x100_0000, 65536);
    }
    fxmul(ratio, sin) > 65536
}

/// At normal incidence the sine vanishes, so total internal reflection
/// never triggers, whatever the refraction ratio.
pub proof fn lemma_normal_incidence_refracts(ratio: int)
    requires
        -0x100_0000 <= ratio <= 0x100_0000,
    ensures
        !spec_cannot_refract(ratio, 65536),
{
    lemma_tdiv_exact((65536 * 65536) as int, 65536, 65536, 0);
    assert(spec_fxmul(65536, 65536) == 65536);
    assert(sqrt_floor(0) == 0);
    assert(ratio * 0 == 0) by (nonlinear_arith);
    lemma_tdiv_exact(0, 65536, 0, 0);
    assert(spec_fxmul(ratio, 0) == 0);
}

impl Lambertian {
    /// A diffuse material; the color is clamped into the unit range.
    pub fn new(albedo: Color, checker: Option<i64>, rng: &mut rand::rngs::StdRng) -> (r:
        Lambertian)
        ensures
            lambertian_wf(r),
            r.albedo.x == if albedo.x < 0 {
                0int
            } else if albedo.x > 65536 {
                65536int
            } else {
                albedo.x as int
            },
            r.albedo.y == if albedo.y < 0 {
                0int
            } else if albedo.y > 65536 {
                65536int
            } else {
                albedo.y as int
            },
            r.albedo.z == if albedo.z < 0 {
                0int
            } else if albedo.z > 65536 {
                65536int
            } else {
                albedo.z as int
            },
            r.checker == checker,
    {
        Lambertian {
            albedo: Vec3 {
                x: fxclamp(albedo.x, 0, 65536),
                y: fxclamp(albedo.y, 0, 65536),
                z: fxclamp(albedo.z, 0, 65536),
            },
            checker,
            perlin: Perlin::new(rng),
        }
    }

    /// Diffuse scattering: always succeeds; the outgoing direction is the
    /// surface normal plus a random unit vector, with the normal itself as
    /// the fallback for a degenerate sum.
    pub fn scatter(&self, _r_in: &Ray, rec: &HitRecord, rng: &mut rand::rngs::StdRng) -> (res:
        Option<(Color, Ray)>)
        requires
            lambertian_wf(*self),
            hit_record_wf(*rec),
        ensures
            res is Some,
            res->Some_0.0 == spec_lambertian_attenuation(*self, rec.p),
            color_unit(res->Some_0.0),
            res->Some_0.1.orig == rec.p,
            vec_bounded(res->Some_0.1.dir, RAY_COORD_MAX as int),
            exists|uv: Vec3|
                #[trigger] vec_bounded(uv, (2 * 65536) as int) && res->Some_0.1.dir == ({
                    let sum = Vec3 {
                        x: (rec.normal.x + uv.x) as i64,
                        y: (rec.normal.y + uv.y) as i64,
                        z: (rec.normal.z + uv.z) as i64,
                    };
                    if crate::vec3::spec_near_zero(sum) {
                        rec.normal
                    } else {
                        sum
                    }
                }),
            !crate::vec3::spec_near_zero(rec.normal) ==> !crate::vec3::spec_near_zero(
                res->Some_0.1.dir,
            ),
    {
        let attenuation: Color = match self.checker {
            Option::Some(_) => {
                let n = self.perlin.cell_noise(rec.p);
                proof {
                    lemma_fxmul_bound(n as int, self.albedo.x as int, 65536, 65536);
                    lemma_fxmul_bound(n as int, self.albedo.y as int, 65536, 65536);
                    lemma_fxmul_bound(n as int, self.albedo.z as int, 65536, 65536);
                    lemma_tdiv_bounds((n as int) * (self.albedo.x as int), SCALE as int);
                    lemma_tdiv_bounds((n as int) * (self.albedo.y as int), SCALE as int);
                    lemma_tdiv_bounds((n as int) * (self.albedo.z as int), SCALE as int);
                    assert((n as int) * (self.albedo.x as int) >= 0 && (n as int)
                        * (self.albedo.y as int) >= 0 && (n as int) * (self.albedo.z as int)
                        >= 0) by (nonlinear_arith)
                        requires
                            n >= 0,
                            self.albedo.x >= 0,
                            self.albedo.y >= 0,
                            self.albedo.z >= 0,
                    ;
                }
                Vec3 {
                    x: fxmul(n, self.albedo.x),
                    y: fxmul(n, self.albedo.y),
                    z: fxmul(n, self.albedo.z),
                }
            },
            Option::None => self.albedo,
        };
        let ru = crate::vec3::random_unit_vector(rng);
        let mut scatter_direction = rec.normal.add(ru);
        if scatter_direction.near_zero() {
            scatter_direction = rec.normal;
        }
        proof {
            assert(vec_bounded(ru, (2 * 65536) as int));
        }
        Some((attenuation, Ray::new(rec.p, scatter_direction)))
    }
}

impl Metal {
    /// A reflective material; the color and the fuzz radius are clamped
    /// into the unit range.
    pub fn new(albedo: Color, fuzz: i64) -> (r: Metal)
        ensures
            metal_wf(r),
            r.fuzz == if fuzz < 0 {
                0int
            } else if fuzz > 65536 {
                65536int
            } else {
                fuzz as int
            },
            r.albedo.x == if albedo.x < 0 {
                0int
            } else if albedo.x > 65536 {
                65536int
            } else {
                albedo.x as int
            },
            r.albedo.y == if albedo.y < 0 {
                0int
            } else if albedo.y > 65536 {
                65536int
            } else {
                albedo.y as int
            },
            r.albedo.z == if albedo.z < 0 {
                0int
            } else if albedo.z > 65536 {
                65536int
            } else {
                albedo.z as int
            },
    {
        Metal {
            albedo: Vec3 {
                x: fxclamp(albedo.x, 0, 65536),
                y: fxclamp(albedo.y, 0, 65536),
                z: fxclamp(albedo.z, 0, 65536),
            },
            fuzz: fxclamp(fuzz, 0, 65536),
        }
    }

    /// Metallic scattering: mirror the incoming direction about the
    /// normal, fuzz it by a random in-sphere offset, and absorb the ray
    /// when the result points into the surface.
    pub fn scatter(&self, r_in: &Ray, rec: &HitRecord, rng: &mut rand::rngs::StdRng) -> (res:
        Option<(Color, Ray)>)
        requires
            metal_wf(*self),
            hit_record_wf(*rec),
            vec_bounded(r_in.dir, RAY_COORD_MAX as int),
        ensures
            res is Some ==> res->Some_0.0 == self.albedo && res->Some_0.1.orig == rec.p
                && vec_bounded(res->Some_0.1.dir, RAY_COORD_MAX as int) && spec_dot(
                res->Some_0.1.dir,
                rec.normal,
            ) > 0,
            spec_dot(r_in.dir, r_in.dir) < 1 ==> res is None,
            self.fuzz == 0 && spec_dot(r_in.dir, r_in.dir) >= 1 ==> {
                let rd = spec_reflect_vec(spec_unit_vec(r_in.dir), rec.normal);
                &&& (res is Some <==> spec_dot(rd, rec.normal) > 0)
                &&& (res is Some ==> res->Some_0.1.dir == rd)
            },
            spec_dot(r_in.dir, r_in.dir) >= 1 && res is Some ==> exists|sp: Vec3|
                #[trigger] spec_dot(sp, sp) < 65536 && vec_bounded(sp, 65536)
                    && res->Some_0.1.dir == (Vec3 {
                    x: (spec_reflect_vec(spec_unit_vec(r_in.dir), rec.normal).x + spec_fxmul(
                        sp.x as int,
                        self.fuzz as int,
                    )) as i64,
                    y: (spec_reflect_vec(spec_unit_vec(r_in.dir), rec.normal).y + spec_fxmul(
                        sp.y as int,
                        self.fuzz as int,
                    )) as i64,
                    z: (spec_reflect_vec(spec_unit_vec(r_in.dir), rec.normal).z + spec_fxmul(
                        sp.z as int,
                        self.fuzz as int,
                    )) as i64,
                }),
    {
        proof {
            lemma_dot_bound(r_in.dir, r_in.dir, RAY_COORD_MAX as int, RAY_COORD_MAX as int);
        }
        let a = dot(r_in.direction(), r_in.direction());
        if a < 1 {
            return None;
        }
        let u = unit_vector(r_in.direction());
        proof {
            lemma_dot_bound(u, rec.normal, 2 * SCALE, NORMAL_MAX as int);
            lemma_fxmul_bound(
                rec.normal.x as int,
                2 * spec_dot(u, rec.normal),
                NORMAL_MAX as int,
                0x60_0000,
            );
            lemma_fxmul_bound(
                rec.normal.y as int,
                2 * spec_dot(u, rec.normal),
                NORMAL_MAX as int,
                0x60_0000,
            );
            lemma_fxmul_bound(
                rec.normal.z as int,
                2 * spec_dot(u, rec.normal),
                NORMAL_MAX as int,
                0x60_0000,
            );
        }
        let refl = reflect(u, rec.normal);
        let sph = crate::vec3::random_in_unit_sphere(rng);
        proof {
            lemma_fxmul_bound(sph.x as int, self.fuzz as int, 65536, 65536);
            lemma_fxmul_bound(sph.y as int, self.fuzz as int, 65536, 65536);
            lemma_fxmul_bound(sph.z as int, self.fuzz as int, 65536, 65536);
            if self.fuzz == 0 {
                assert((sph.x as int) * 0 == 0) by (nonlinear_arith);
                assert((sph.y as int) * 0 == 0) by (nonlinear_arith);
                assert((sph.z as int) * 0 == 0) by (nonlinear_arith);
                lemma_tdiv_exact(0, 65536, 0, 0);
            }
        }
        let fz = sph.scale(self.fuzz);
        let reflected_direction = refl.add(fz);
        proof {
            lemma_dot_bound(
                reflected_direction,
                rec.normal,
                RAY_COORD_MAX as int,
                NORMAL_MAX as int,
            );
        }
        let keep = dot(reflected_direction, rec.normal);
        if keep > 0 {
            proof {
                assert(spec_dot(sph, sph) < 65536);
            }
            Some((self.albedo, Ray::new(rec.p, reflected_direction)))
        } else {
            None
        }
    }
}

impl Dielectric {
    /// A refractive material; the magnitude of the index is clamped into
    /// a quarter unit to four units, keeping its sign. The band is this
    /// library's own choice: it keeps every quantity the scattering
    /// formulas derive within the scalar range, and it covers every
    /// physical index of refraction.
    pub fn new(ir: i64) -> (r: Dielectric)
        ensures
            dielectric_wf(r),
            ir >= 0 ==> r.ir == if ir < 16384 {
                16384int
            } else if ir > 262144 {
                262144int
            } else {
                ir as int
            },
            ir < 0 ==> r.ir == if ir > -16384 {
                -16384int
            } else if ir < -262144 {
                -262144int
            } else {
                ir as int
            },
    {
        if ir >= 0 {
            Dielectric { ir: fxclamp(ir, 16384, 262144) }
        } else {
            Dielectric { ir: fxclamp(ir, -262144, -16384) }
        }
    }

    /// The Schlick reflectance; exact per `spec_reflectance`.
    pub fn reflectance(cosine: i64, ref_idx: i64) -> (r: i64)
        requires
            -65536 <= cosine <= 65536,
            iabs(ref_idx as int) <= 262144,
        ensures
            r == spec_reflectance(cosine as int, ref_idx as int),
    {
        if 65536 + ref_idx == 0 {
            return 65536;
        }
        proof {
            lemma_tdiv_bounds((65536 - ref_idx as int) * 65536, 65536 + ref_idx as int);
            assert(iabs((65536 - ref_idx as int) * 65536) <= 0x5_0000_0000) by (nonlinear_arith)
                requires
                    iabs(ref_idx as int) <= 262144,
            ;
        }
        let r0 = fxdiv(65536 - ref_idx, 65536 + ref_idx);
        proof {
            lemma_fxmul_bound(r0 as int, r0 as int, 0x5_0000_0000, 0x5_0000_0000);
        }
        let r0sq = fxmul(r0, r0);
        let e = 65536 - cosine;
        proof {
            lemma_fxmul_bound(e as int, e as int, 0x2_0000, 0x2_0000);
            lemma_fxmul_bound(spec_fxmul(e as int, e as int), spec_fxmul(e as int, e as int), 0x4_0000, 0x4_0000);
            lemma_fxmul_bound(
                spec_fxmul(spec_fxmul(e as int, e as int), spec_fxmul(e as int, e as int)),
                e as int,
                0x10_0000,
                0x2_0000,
            );
        }
        let e2 = fxmul(e, e);
        let e4 = fxmul(e2, e2);
        let e5 = fxmul(e4, e);
        proof {
            lemma_fxmul_bound(
                65536 - r0sq as int,
                e5 as int,
                0x20_0000_0000_0000,
                0x20_0000,
            );
        }
        r0sq + fxmul(65536 - r0sq, e5)
    }

    /// Dielectric scattering: pick reflection or refraction by total
    /// internal reflection and a Schlick-reflectance coin flip; the
    /// attenuation is always white. Under total internal reflection the
    /// ray always scatters, as the mirror direction; absorption happens
    /// only for a degenerate incoming ray or a refracted direction beyond
    /// the ray bound.
    pub fn scatter(&self, r_in: &Ray, rec: &HitRecord, rng: &mut rand::rngs::StdRng) -> (res:
        Option<(Color, Ray)>)
        requires
            dielectric_wf(*self),
            hit_record_wf(*rec),
            vec_bounded(r_in.dir, RAY_COORD_MAX as int),
        ensures
            res is Some ==> res->Some_0.0 == (Vec3 { x: 65536i64, y: 65536i64, z: 65536i64 })
                && res->Some_0.1.orig == rec.p && vec_bounded(
                res->Some_0.1.dir,
                RAY_COORD_MAX as int,
            ),
            spec_dot(r_in.dir, r_in.dir) < 1 ==> res is None,
            res is Some ==> res->Some_0.1.dir == spec_reflect_vec(
                spec_unit_vec(r_in.dir),
                rec.normal,
            ) || res->Some_0.1.dir == spec_refract_vec(
                spec_unit_vec(r_in.dir),
                rec.normal,
                spec_refraction_ratio(*self, rec.front_face),
            ),
            spec_dot(r_in.dir, r_in.dir) >= 1 && spec_cannot_refract(
                spec_refraction_ratio(*self, rec.front_face),
                spec_dielectric_cos(r_in.dir, rec.normal),
            ) ==> res is Some && res->Some_0.1.dir == spec_reflect_vec(
                spec_unit_vec(r_in.dir),
                rec.normal,
            ),
            res is None ==> spec_dot(r_in.dir, r_in.dir) < 1 || (!spec_cannot_refract(
                spec_refraction_ratio(*self, rec.front_face),
                spec_dielectric_cos(r_in.dir, rec.normal),
            ) && !vec_bounded(
                spec_refract_vec(
                    spec_unit_vec(r_in.dir),
                    rec.normal,
                    spec_refraction_ratio(*self, rec.front_face),
                ),
                0x200_0000,
            )),
    {
        proof {
            lemma_dot_bound(r_in.dir, r_in.dir, RAY_COORD_MAX as int, RAY_COORD_MAX as int);
        }
        let a = dot(r_in.direction(), r_in.direction());
        if a < 1 {
            return None;
        }
        let refraction_ratio: i64 = if rec.front_face {
            proof {
                lemma_tdiv_bounds(65536int * 65536, self.ir as int);
                vstd::arithmetic::div_mod::lemma_div_is_ordered_by_denominator(
                    0x1_0000_0000,
                    16384,
                    iabs(self.ir as int),
                );
                lemma_tdiv_exact(0x1_0000_0000, 16384, 262144, 0);
            }
            fxdiv(65536, self.ir)
        } else {
            self.ir
        };
        let u = unit_vector(r_in.direction());
        proof {
            lemma_dot_bound(u, rec.normal, 2 * SCALE, NORMAL_MAX as int);
        }
        let un = u.neg();
        proof {
            lemma_dot_bound(un, rec.normal, 2 * SCALE, NORMAL_MAX as int);
        }
        let cos_theta = fxclamp(dot(un, rec.normal), -65536, 65536);
        let cannot_refract = dielectric_cannot_refract(refraction_ratio, cos_theta);
        let refl_prob = Dielectric::reflectance(cos_theta, refraction_ratio);
        let rnd = random_double(rng);
        proof {
            lemma_fxmul_bound(
                rec.normal.x as int,
                2 * spec_dot(u, rec.normal),
                NORMAL_MAX as int,
                0x60_0000,
            );
            lemma_fxmul_bound(
                rec.normal.y as int,
                2 * spec_dot(u, rec.normal),
                NORMAL_MAX as int,
                0x60_0000,
            );
            lemma_fxmul_bound(
                rec.normal.z as int,
                2 * spec_dot(u, rec.normal),
                NORMAL_MAX as int,
                0x60_0000,
            );
        }
        let took_mirror = cannot_refract || refl_prob > rnd;
        let direction: Vec3 = if took_mirror {
            reflect(u, rec.normal)
        } else {
            refract(u, rec.normal, refraction_ratio)
        };
        if direction.x > 0x200_0000 || direction.x < -0x200_0000 || direction.y > 0x200_0000
            || direction.y < -0x200_0000 || direction.z > 0x200_0000 || direction.z
            < -0x200_0000 {
            // The mirror direction always lies within the ray bound, so
            // only an oversized refraction is absorbed here.
            assert(!took_mirror);
            return None;
        }
        Some((Vec3 { x: 65536, y: 65536, z: 65536 }, Ray::new(rec.p, direction)))
    }
}

/// The closed set of materials, dispatched by variant.
pub enum Material {
    Lambertian(Lambertian),
    Metal(Metal),
    Dielectric(Dielectric),
}

/// Whether a material's stored data is within its bounds.
pub open spec fn material_wf(m: Material) -> bool {
    match m {
        Material::Lambertian(l) => lambertian_wf(l),
        Material::Metal(mt) => metal_wf(mt),
        Material::Dielectric(d) => dielectric_wf(d),
    }
}

impl Material {
    /// Scatter an incoming ray at a surface hit: either absorb it or
    /// produce an attenuation in the unit color range and an outgoing ray
    /// that starts at the hit point, with a direction inside the ray
    /// bound. A diffuse material always scatters, with its exact
    /// attenuation.
    pub fn scatter(&self, r_in: &Ray, rec: &HitRecord, rng: &mut rand::rngs::StdRng) -> (res:
        Option<(Color, Ray)>)
        requires
            material_wf(*self),
            hit_record_wf(*rec),
            vec_bounded(r_in.dir, RAY_COORD_MAX as int),
        ensures
            res is Some ==> color_unit(res->Some_0.0) && res->Some_0.1.orig == rec.p
                && vec_bounded(res->Some_0.1.dir, RAY_COORD_MAX as int),
            (*self) matches Material::Lambertian(l) ==> res is Some && res->Some_0.0
                == spec_lambertian_attenuation(l, rec.p),
            (*self) matches Material::Metal(m) ==> (res is Some ==> res->Some_0.0 == m.albedo
                && spec_dot(res->Some_0.1.dir, rec.normal) > 0),
            (*self) matches Material::Dielectric(d) ==> (res is Some ==> res->Some_0.0 == (Vec3 {
                x: 65536i64,
                y: 65536i64,
                z: 65536i64,
            })),
    {
        match self {
            Material::Lambertian(l) => l.scatter(r_in, rec, rng),
            Material::Metal(m) => m.scatter(r_in, rec, rng),
            Material::Dielectric(d) => d.scatter(r_in, rec, rng),
        }
    }
}

} // verus!
