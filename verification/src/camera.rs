//! The camera: maps normalized image-plane coordinates to world rays,
//! with optional depth of field from a lens disk.

use vstd::prelude::*;

verus! {

use crate::common::{spec_deg2rad, spec_tan, tan_fx, PI_HALF_FX};
use crate::fx::{
    fits, fxclamp, fxmul, iabs, lemma_fxmul_bound, lemma_tdiv_bounds, lemma_tdiv_exact,
    spec_fxmul, tdiv, tdiv64,
};
use crate::ray::Ray;
use crate::vec3::{
    cross, dot, lemma_cross_bound, lemma_dot_bound, spec_cross, spec_dot, spec_unit_vec,
    unit_vector, vec_bounded, Point3, Vec3, COORD_MAX, RAY_COORD_MAX,
};

/// Bound on the components of the viewport-spanning vectors.
pub const CAM_VEC_MAX: i64 = 0x40_0000;

/// Bound on the lens radius.
pub const CAM_LENS_MAX: i64 = 0x10_0000;

/// Why a camera could not be built.
#[derive(Clone, Copy, PartialEq, Eq, Structural, Debug)]
pub enum CameraError {
    /// The field of view, aperture or focus distance lies outside the
    /// accepted range.
    OutOfRange,
    /// The viewing directions span no usable basis.
    Degenerate,
    /// A derived viewport vector leaves the camera bounds.
    ViewportTooLarge,
}

/// A per-render camera configuration, derived once from the viewing
/// parameters.
#[derive(Clone, Copy, PartialEq, Eq, Structural, Debug)]
pub struct Camera {
    pub vfov: i64,
    pub aspect_ratio: i64,
    pub origin: Point3,
    pub horizontal: Vec3,
    pub vertical: Vec3,
    pub lower_left_corner: Point3,
    pub u: Vec3,
    pub v: Vec3,
    pub lens_radius: i64,
}

/// The camera's stored data lies within the bounds the ray generator
/// needs: the viewport vectors are small, the lower-left corner sits
/// close to the origin, and the lens basis is unit-sized.
pub open spec fn camera_wf(c: Camera) -> bool {
    &&& vec_bounded(c.origin, COORD_MAX as int)
    &&& vec_bounded(c.horizontal, CAM_VEC_MAX as int)
    &&& vec_bounded(c.vertical, CAM_VEC_MAX as int)
    &&& iabs(c.lower_left_corner.x - c.origin.x) <= 3 * CAM_VEC_MAX
    &&& iabs(c.lower_left_corner.y - c.origin.y) <= 3 * CAM_VEC_MAX
    &&& iabs(c.lower_left_corner.z - c.origin.z) <= 3 * CAM_VEC_MAX
    &&& vec_bounded(c.u, (2 * 65536) as int)
    &&& vec_bounded(c.v, (2 * 65536) as int)
    &&& 0 <= c.lens_radius <= CAM_LENS_MAX
}

/// The exact outcome of building a camera, mirrored step for step from
/// the construction: range checks, the viewport from the tangent of the
/// half field of view, the orthonormal basis from unit cross products,
/// the viewport vectors scaled by the focus distance, and the lower-left
/// corner; each degenerate or oversized configuration is rejected with
/// its error.
pub open spec fn spec_camera_new(
    look_from: Vec3,
    look_at: Vec3,
    vup: Vec3,
    vfov: i64,
    aperture: i64,
    focus_dist: i64,
) -> Result<Camera, CameraError> {
    if vfov < 65536 || vfov > 11599872 || focus_dist <= 0 || focus_dist > COORD_MAX || aperture
        < 0 || aperture > 2 * CAM_LENS_MAX {
        Err(CameraError::OutOfRange)
    } else {
        let theta = spec_deg2rad(vfov as int);
        let half = tdiv(theta, 2);
        let h = spec_tan(half);
        let vh = 2 * h;
        let vw = spec_fxmul(116508, vh);
        let dv = Vec3 {
            x: (look_from.x - look_at.x) as i64,
            y: (look_from.y - look_at.y) as i64,
            z: (look_from.z - look_at.z) as i64,
        };
        if spec_dot(dv, dv) < 1 {
            Err(CameraError::Degenerate)
        } else {
            let w = spec_unit_vec(dv);
            let cv = Vec3 {
                x: spec_cross(vup, w).x as i64,
                y: spec_cross(vup, w).y as i64,
                z: spec_cross(vup, w).z as i64,
            };
            if spec_dot(cv, cv) < 1 {
                Err(CameraError::Degenerate)
            } else if !vec_bounded(cv, 0x4000_0000) {
                Err(CameraError::Degenerate)
            } else {
                let u = spec_unit_vec(cv);
                let cw = Vec3 {
                    x: spec_cross(w, u).x as i64,
                    y: spec_cross(w, u).y as i64,
                    z: spec_cross(w, u).z as i64,
                };
                if spec_dot(cw, cw) < 1 {
                    Err(CameraError::Degenerate)
                } else {
                    let v = spec_unit_vec(cw);
                    let sw = spec_fxmul(focus_dist as int, vw);
                    let sh = spec_fxmul(focus_dist as int, vh);
                    let horizontal = Vec3 {
                        x: spec_fxmul(u.x as int, sw) as i64,
                        y: spec_fxmul(u.y as int, sw) as i64,
                        z: spec_fxmul(u.z as int, sw) as i64,
                    };
                    let vertical = Vec3 {
                        x: spec_fxmul(v.x as int, sh) as i64,
                        y: spec_fxmul(v.y as int, sh) as i64,
                        z: spec_fxmul(v.z as int, sh) as i64,
                    };
                    if !vec_bounded(horizontal, CAM_VEC_MAX as int) {
                        Err(CameraError::ViewportTooLarge)
                    } else if !vec_bounded(vertical, CAM_VEC_MAX as int) {
                        Err(CameraError::ViewportTooLarge)
                    } else {
                        let fw = Vec3 {
                            x: spec_fxmul(w.x as int, focus_dist as int) as i64,
                            y: spec_fxmul(w.y as int, focus_dist as int) as i64,
                            z: spec_fxmul(w.z as int, focus_dist as int) as i64,
                        };
                        if !vec_bounded(fw, CAM_VEC_MAX as int) {
                            Err(CameraError::ViewportTooLarge)
                        } else {
                            let llc = Vec3 {
                                x: (look_from.x - spec_fxmul(horizontal.x as int, 32768)
                                    - spec_fxmul(vertical.x as int, 32768) - fw.x) as i64,
                                y: (look_from.y - spec_fxmul(horizontal.y as int, 32768)
                                    - spec_fxmul(vertical.y as int, 32768) - fw.y) as i64,
                                z: (look_from.z - spec_fxmul(horizontal.z as int, 32768)
                                    - spec_fxmul(vertical.z as int, 32768) - fw.z) as i64,
                            };
                            Ok(
                                Camera {
                                    vfov,
                                    aspect_ratio: 116508,
                                    origin: look_from,
                                    horizontal,
                                    vertical,
                                    lower_left_corner: llc,
                                    u,
                                    v,
                                    lens_radius: tdiv(aperture as int, 2) as i64,
                                },
                            )
                        }
                    }
                }
            }
        }
    }
}

/// The ray cast through normalized image-plane coordinates `(s, t)` for
/// a given lens-disk sample `rd0`: the origin is offset over the lens by
/// the sample scaled to the lens radius and mapped through the camera
/// basis, and the direction compensates so the ray still aims at the
/// image-plane point.
pub open spec fn spec_lens_ray(c: Camera, s: int, t: int, rd0: Vec3) -> Ray {
    let rdx = spec_fxmul(rd0.x as int, c.lens_radius as int);
    let rdy = spec_fxmul(rd0.y as int, c.lens_radius as int);
    let offx = spec_fxmul(c.u.x as int, rdx) + spec_fxmul(c.v.x as int, rdy);
    let offy = spec_fxmul(c.u.y as int, rdx) + spec_fxmul(c.v.y as int, rdy);
    let offz = spec_fxmul(c.u.z as int, rdx) + spec_fxmul(c.v.z as int, rdy);
    Ray {
        orig: Vec3 {
            x: (c.origin.x + offx) as i64,
            y: (c.origin.y + offy) as i64,
            z: (c.origin.z + offz) as i64,
        },
        dir: Vec3 {
            x: (c.lower_left_corner.x - c.origin.x + spec_fxmul(c.horizontal.x as int, s)
                + spec_fxmul(c.vertical.x as int, t) - offx) as i64,
            y: (c.lower_left_corner.y - c.origin.y + spec_fxmul(c.horizontal.y as int, s)
                + spec_fxmul(c.vertical.y as int, t) - offy) as i64,
            z: (c.lower_left_corner.z - c.origin.z + spec_fxmul(c.horizontal.z as int, s)
                + spec_fxmul(c.vertical.z as int, t) - offz) as i64,
        },
    }
}

/// The ray a pinhole camera (zero aperture) casts through normalized
/// image-plane coordinates `(s, t)`.
pub open spec fn spec_pinhole_ray(c: Camera, s: int, t: int) -> Ray {
    Ray {
        orig: c.origin,
        dir: Vec3 {
            x: (c.lower_left_corner.x - c.origin.x + spec_fxmul(c.horizontal.x as int, s)
                + spec_fxmul(c.vertical.x as int, t)) as i64,
            y: (c.lower_left_corner.y - c.origin.y + spec_fxmul(c.horizontal.y as int, s)
                + spec_fxmul(c.vertical.y as int, t)) as i64,
            z: (c.lower_left_corner.z - c.origin.z + spec_fxmul(c.horizontal.z as int, s)
                + spec_fxmul(c.vertical.z as int, t)) as i64,
        },
    }
}

impl Camera {
    /// Build a camera from viewing parameters: positions and an up
    /// vector, a vertical field of view in fixed-point degrees, the lens
    /// aperture, and the focus distance. The aspect ratio is the wide
    /// sixteen-to-nine viewport. Degenerate or out-of-range parameters
    /// are rejected.
    pub fn new(
        look_from: Vec3,
        look_at: Vec3,
        vup: Vec3,
        vfov: i64,
        aperture: i64,
        focus_dist: i64,
    ) -> (res: Result<Camera, CameraError>)
        requires
            vec_bounded(look_from, COORD_MAX as int),
            vec_bounded(look_at, COORD_MAX as int),
            vec_bounded(vup, COORD_MAX as int),
        ensures
            res == spec_camera_new(look_from, look_at, vup, vfov, aperture, focus_dist),
            res matches Ok(c) ==> camera_wf(c) && c.origin == look_from && c.vfov == vfov
                && c.lens_radius == tdiv(aperture as int, 2),
    {
        if vfov < 65536 || vfov > 11599872 || focus_dist <= 0 || focus_dist > COORD_MAX
            || aperture < 0 || aperture > 2 * CAM_LENS_MAX {
            return Err(CameraError::OutOfRange);
        }
        let theta = crate::common::degrees_to_radians(vfov);
        proof {
            lemma_tdiv_bounds((vfov as int) * crate::common::PI_FX, (180 * 65536) as int);
            lemma_tdiv_bounds(theta as int, 2);
        }
        let half = tdiv64(theta, 2);
        proof {
            // The halved angle of an accepted field of view stays within
            // the first quarter turn.
            vstd::arithmetic::div_mod::lemma_div_is_ordered(
                iabs((vfov as int) * 205887),
                11599872int * 205887,
                11796480,
            );
            assert(iabs((vfov as int) * 205887) <= 11599872int * 205887) by (nonlinear_arith)
                requires
                    65536 <= vfov <= 11599872,
            ;
            lemma_tdiv_exact(11599872int * 205887, 11796480, 202455, 6488064);
            vstd::arithmetic::div_mod::lemma_div_is_ordered(iabs(theta as int), 202455, 2);
            lemma_tdiv_exact(202455, 2, 101227, 1);
            assert((vfov as int) * 205887 >= 0) by (nonlinear_arith)
                requires
                    vfov >= 0,
            ;
        }
        let h = tan_fx(half);
        let viewport_height = 2 * h;
        proof {
            lemma_fxmul_bound(116508, viewport_height as int, 116508, 0x2_0000_0000);
        }
        let viewport_width = fxmul(116508, viewport_height);
        let dirv = look_from.sub(look_at);
        proof {
            lemma_dot_bound(dirv, dirv, 0x200_0000, 0x200_0000);
        }
        let dl = dot(dirv, dirv);
        if dl < 1 {
            return Err(CameraError::Degenerate);
        }
        let w = unit_vector(dirv);
        proof {
            lemma_cross_bound(vup, w, COORD_MAX as int, (2 * 65536) as int);
        }
        let cuw = cross(vup, w);
        proof {
            lemma_dot_bound(cuw, cuw, 0x400_0000, 0x400_0000);
        }
        let cl = dot(cuw, cuw);
        if cl < 1 {
            return Err(CameraError::Degenerate);
        }
        if cuw.x > 0x4000_0000 || cuw.x < -0x4000_0000 || cuw.y > 0x4000_0000 || cuw.y
            < -0x4000_0000 || cuw.z > 0x4000_0000 || cuw.z < -0x4000_0000 {
            return Err(CameraError::Degenerate);
        }
        let u = unit_vector(cuw);
        proof {
            lemma_cross_bound(w, u, (2 * 65536) as int, (2 * 65536) as int);
        }
        let cwu = cross(w, u);
        proof {
            lemma_dot_bound(cwu, cwu, 0x8_0000, 0x8_0000);
        }
        let cwl = dot(cwu, cwu);
        if cwl < 1 {
            return Err(CameraError::Degenerate);
        }
        let v = unit_vector(cwu);
        proof {
            lemma_fxmul_bound(focus_dist as int, viewport_width as int, COORD_MAX as int, 0x4_0000_0000);
            lemma_fxmul_bound(focus_dist as int, viewport_height as int, COORD_MAX as int, 0x2_0000_0000);
        }
        let sw = fxmul(focus_dist, viewport_width);
        let sh = fxmul(focus_dist, viewport_height);
        proof {
            lemma_fxmul_bound(u.x as int, sw as int, (2 * 65536) as int, 0x4000_0000_0000);
            lemma_fxmul_bound(u.y as int, sw as int, (2 * 65536) as int, 0x4000_0000_0000);
            lemma_fxmul_bound(u.z as int, sw as int, (2 * 65536) as int, 0x4000_0000_0000);
            lemma_fxmul_bound(v.x as int, sh as int, (2 * 65536) as int, 0x4000_0000_0000);
            lemma_fxmul_bound(v.y as int, sh as int, (2 * 65536) as int, 0x4000_0000_0000);
            lemma_fxmul_bound(v.z as int, sh as int, (2 * 65536) as int, 0x4000_0000_0000);
        }
        let horizontal = u.scale(sw);
        let vertical = v.scale(sh);
        if horizontal.x > CAM_VEC_MAX || horizontal.x < -CAM_VEC_MAX || horizontal.y
            > CAM_VEC_MAX || horizontal.y < -CAM_VEC_MAX || horizontal.z > CAM_VEC_MAX
            || horizontal.z < -CAM_VEC_MAX {
            return Err(CameraError::ViewportTooLarge);
        }
        if vertical.x > CAM_VEC_MAX || vertical.x < -CAM_VEC_MAX || vertical.y > CAM_VEC_MAX
            || vertical.y < -CAM_VEC_MAX || vertical.z > CAM_VEC_MAX || vertical.z
            < -CAM_VEC_MAX {
            return Err(CameraError::ViewportTooLarge);
        }
        let half_h = horizontal.scale(32768);
        let half_v = vertical.scale(32768);
        proof {
            lemma_fxmul_bound(horizontal.x as int, 32768, CAM_VEC_MAX as int, 32768);
            lemma_fxmul_bound(horizontal.y as int, 32768, CAM_VEC_MAX as int, 32768);
            lemma_fxmul_bound(horizontal.z as int, 32768, CAM_VEC_MAX as int, 32768);
            lemma_fxmul_bound(vertical.x as int, 32768, CAM_VEC_MAX as int, 32768);
            lemma_fxmul_bound(vertical.y as int, 32768, CAM_VEC_MAX as int, 32768);
            lemma_fxmul_bound(vertical.z as int, 32768, CAM_VEC_MAX as int, 32768);
            lemma_fxmul_bound(w.x as int, focus_dist as int, (2 * 65536) as int, COORD_MAX as int);
            lemma_fxmul_bound(w.y as int, focus_dist as int, (2 * 65536) as int, COORD_MAX as int);
            lemma_fxmul_bound(w.z as int, focus_dist as int, (2 * 65536) as int, COORD_MAX as int);
        }
        let fw = w.scale(focus_dist);
        if fw.x > CAM_VEC_MAX || fw.x < -CAM_VEC_MAX || fw.y > CAM_VEC_MAX || fw.y
            < -CAM_VEC_MAX || fw.z > CAM_VEC_MAX || fw.z < -CAM_VEC_MAX {
            return Err(CameraError::ViewportTooLarge);
        }
        let lower_left_corner = look_from.sub(half_h).sub(half_v).sub(fw);
        let lens_radius = tdiv64(aperture, 2);
        proof {
            lemma_tdiv_bounds(aperture as int, 2);
            vstd::arithmetic::div_mod::lemma_div_is_ordered(iabs(aperture as int), 0x20_0000, 2);
            lemma_tdiv_exact(0x20_0000, 2, 0x10_0000, 0);
        }
        Ok(
            Camera {
                vfov,
                aspect_ratio: 116508,
                origin: look_from,
                horizontal,
                vertical,
                lower_left_corner,
                u,
                v,
                lens_radius,
            },
        )
    }

    /// Cast the ray for normalized image-plane coordinates `(s, t)`,
    /// jittering the origin over the lens disk when the aperture is
    /// open. With a closed lens the ray is exactly the pinhole ray.
    #[verifier::rlimit(60)]
    pub fn get_ray(&self, s: i64, t: i64, rng: &mut rand::rngs::StdRng) -> (r: Ray)
        requires
            camera_wf(*self),
            0 <= s <= 131072,
            0 <= t <= 131072,
        ensures
            vec_bounded(r.orig, RAY_COORD_MAX as int),
            vec_bounded(r.dir, RAY_COORD_MAX as int),
            self.lens_radius == 0 ==> r == spec_pinhole_ray(*self, s as int, t as int),
            exists|rd0: Vec3|
                #[trigger] spec_dot(rd0, rd0) < 65536 && vec_bounded(rd0, 65536) && rd0.z == 0
                    && r == spec_lens_ray(*self, s as int, t as int, rd0),
    {
        let rd0 = crate::vec3::random_in_unit_disk(rng);
        proof {
            lemma_fxmul_bound(rd0.x as int, self.lens_radius as int, 65536, CAM_LENS_MAX as int);
            lemma_fxmul_bound(rd0.y as int, self.lens_radius as int, 65536, CAM_LENS_MAX as int);
            lemma_fxmul_bound(rd0.z as int, self.lens_radius as int, 65536, CAM_LENS_MAX as int);
            if self.lens_radius == 0 {
                assert((rd0.x as int) * 0 == 0) by (nonlinear_arith);
                assert((rd0.y as int) * 0 == 0) by (nonlinear_arith);
                assert((rd0.z as int) * 0 == 0) by (nonlinear_arith);
                lemma_tdiv_exact(0, 65536, 0, 0);
            }
        }
        let rd = rd0.scale(self.lens_radius);
        proof {
            lemma_fxmul_bound(self.u.x as int, rd.x as int, (2 * 65536) as int, CAM_LENS_MAX as int);
            lemma_fxmul_bound(self.u.y as int, rd.x as int, (2 * 65536) as int, CAM_LENS_MAX as int);
            lemma_fxmul_bound(self.u.z as int, rd.x as int, (2 * 65536) as int, CAM_LENS_MAX as int);
            lemma_fxmul_bound(self.v.x as int, rd.y as int, (2 * 65536) as int, CAM_LENS_MAX as int);
            lemma_fxmul_bound(self.v.y as int, rd.y as int, (2 * 65536) as int, CAM_LENS_MAX as int);
            lemma_fxmul_bound(self.v.z as int, rd.y as int, (2 * 65536) as int, CAM_LENS_MAX as int);
            if self.lens_radius == 0 {
                assert((self.u.x as int) * 0 == 0) by (nonlinear_arith);
                assert((self.u.y as int) * 0 == 0) by (nonlinear_arith);
                assert((self.u.z as int) * 0 == 0) by (nonlinear_arith);
                assert((self.v.x as int) * 0 == 0) by (nonlinear_arith);
                assert((self.v.y as int) * 0 == 0) by (nonlinear_arith);
                assert((self.v.z as int) * 0 == 0) by (nonlinear_arith);
            }
        }
        let offset = self.u.scale(rd.x).add(self.v.scale(rd.y));
        proof {
            lemma_fxmul_bound(self.horizontal.x as int, s as int, CAM_VEC_MAX as int, 131072);
            lemma_fxmul_bound(self.horizontal.y as int, s as int, CAM_VEC_MAX as int, 131072);
            lemma_fxmul_bound(self.horizontal.z as int, s as int, CAM_VEC_MAX as int, 131072);
            lemma_fxmul_bound(self.vertical.x as int, t as int, CAM_VEC_MAX as int, 131072);
            lemma_fxmul_bound(self.vertical.y as int, t as int, CAM_VEC_MAX as int, 131072);
            lemma_fxmul_bound(self.vertical.z as int, t as int, CAM_VEC_MAX as int, 131072);
        }
        let base = self.lower_left_corner.sub(self.origin);
        let dir = base.add(self.horizontal.scale(s)).add(self.vertical.scale(t)).sub(offset);
        let out = Ray { orig: self.origin.add(offset), dir };
        proof {
            // The drawn disk point witnesses the lens-ray shape.
            assert(spec_dot(rd0, rd0) < 65536 && vec_bounded(rd0, 65536) && rd0.z == 0 && out
                == spec_lens_ray(*self, s as int, t as int, rd0));
        }
        out
    }
}

} // verus!
