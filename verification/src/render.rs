//! The renderer: the recursive radiance estimator, the sky background,
//! and the per-pixel sample accumulation loop.

use vstd::prelude::*;

verus! {

use crate::camera::{camera_wf, spec_pinhole_ray, Camera};
use crate::color::{to_byte, to_byte_spec, Color};
use crate::fx::{
    fxclamp, fxdiv, fxmul, lemma_fxmul_bound, lemma_tdiv_bounds, lemma_tdiv_le, spec_fxdiv,
    spec_fxmul, tdiv,
};
use crate::hittable_list::{list_wf, spec_list_hit, HittableList};
use crate::material::color_unit;
use crate::ray::Ray;
use crate::vec3::{
    spec_dot, spec_unit, unit_vector, vec_bounded, Vec3, RAY_COORD_MAX, T_LIMIT,
};

/// The intersection lower bound that suppresses self-intersection
/// ("shadow acne"); about one ten-thousandth of a unit.
pub const T_EPSILON: i64 = 7;

/// Per-render configuration.
pub struct Settings {
    pub image_width: u32,
    pub image_height: u32,
    pub parallel: bool,
    pub sample_per_pixel: u32,
    pub max_depth: u32,
    pub jitter: bool,
    pub camera: Camera,
}

/// The configuration a render run accepts: a camera within its bounds, at
/// least two pixels on each axis so that pixel coordinates have a
/// denominator, a bounded image size, and a bounded positive sample
/// count.
pub open spec fn settings_wf(s: Settings) -> bool {
    &&& camera_wf(s.camera)
    &&& 2 <= s.image_width <= 16384
    &&& 2 <= s.image_height <= 16384
    &&& 1 <= s.sample_per_pixel <= 1048576
}

/// Why a render run was rejected.
#[derive(Clone, Copy, PartialEq, Eq, Structural, Debug)]
pub enum RenderError {
    ImageTooSmall,
    ImageTooLarge,
    NoSamples,
    TooManySamples,
}

/// The exact sky color for a ray direction: a vertical gradient from
/// white at the horizon's underside to a light blue at the zenith,
/// blended by the direction's normalized vertical component. A direction
/// of no measurable length falls back to the horizon color.
pub open spec fn spec_sky(dir: Vec3) -> Color {
    if spec_dot(dir, dir) < 1 {
        Vec3 { x: 65536, y: 65536, z: 65536 }
    } else {
        let uy = spec_unit(dir).y;
        let uyc = if uy < -65536 {
            -65536int
        } else if uy > 65536 {
            65536int
        } else {
            uy
        };
        let t = tdiv(uyc + 65536, 2);
        Vec3 {
            x: (65536 - t + spec_fxmul(t, 32768)) as i64,
            y: (65536 - t + spec_fxmul(t, 45875)) as i64,
            z: (65536 - t + spec_fxmul(t, 65536)) as i64,
        }
    }
}

/// The sky color of a ray; exact per `spec_sky`, and always a unit-range
/// color.
pub fn sky_color(ray: &Ray) -> (r: Color)
    requires
        vec_bounded(ray.dir, RAY_COORD_MAX as int),
    ensures
        r == spec_sky(ray.dir),
        color_unit(r),
{
    proof {
        crate::vec3::lemma_dot_bound(ray.dir, ray.dir, RAY_COORD_MAX as int, RAY_COORD_MAX as int);
    }
    let dl = crate::vec3::dot(ray.direction(), ray.direction());
    if dl < 1 {
        return Vec3 { x: 65536, y: 65536, z: 65536 };
    }
    let unit_direction = unit_vector(ray.direction());
    let uyc = fxclamp(unit_direction.y, -65536, 65536);
    let t = crate::fx::tdiv64(uyc + 65536, 2);
    proof {
        lemma_tdiv_bounds(uyc + 65536, 2);
        lemma_tdiv_le(uyc + 65536, 2, 65536);
        lemma_fxmul_bound(t as int, 32768, 65536, 32768);
        lemma_fxmul_bound(t as int, 45875, 65536, 45875);
        lemma_fxmul_bound(t as int, 65536, 65536, 65536);
        assert((t as int) * 32768 >= 0 && (t as int) * 45875 >= 0 && (t as int) * 65536 >= 0)
            by (nonlinear_arith)
            requires
                t >= 0,
        ;
        lemma_tdiv_bounds((t as int) * 32768, 65536);
        lemma_tdiv_bounds((t as int) * 45875, 65536);
        lemma_tdiv_bounds((t as int) * 65536, 65536);
        lemma_tdiv_le((t as int) * 32768, 65536, t as int);
        lemma_tdiv_le((t as int) * 45875, 65536, t as int);
        lemma_tdiv_le((t as int) * 65536, 65536, t as int);
    }
    Vec3 {
        x: 65536 - t + fxmul(t, 32768),
        y: 65536 - t + fxmul(t, 45875),
        z: 65536 - t + fxmul(t, 65536),
    }
}

/// The recursive radiance estimate for a ray: intersect the scene, let
/// the struck material scatter, and attenuate the color carried back by
/// the scattered ray. Termination of the path — by depth, by absorption,
/// or by escaping to the sky — is pinned exactly; the estimate is always
/// a unit-range color.
pub fn ray_color(
    ray: &Ray,
    world: &HittableList,
    settings: &Settings,
    depth: u32,
    rng: &mut rand::rngs::StdRng,
) -> (r: Color)
    requires
        list_wf(*world),
        vec_bounded(ray.orig, RAY_COORD_MAX as int),
        vec_bounded(ray.dir, RAY_COORD_MAX as int),
    ensures
        color_unit(r),
        depth == 0 ==> r == (Vec3 { x: 0i64, y: 0i64, z: 0i64 }),
        depth > 0 && spec_list_hit(
            world.objects@,
            *ray,
            T_EPSILON as int,
            T_LIMIT as int,
        ) is None ==> r == spec_sky(ray.dir),
        depth == 1 && spec_list_hit(
            world.objects@,
            *ray,
            T_EPSILON as int,
            T_LIMIT as int,
        ) is Some ==> r == (Vec3 { x: 0i64, y: 0i64, z: 0i64 }),
        depth > 0 && spec_list_hit(
            world.objects@,
            *ray,
            T_EPSILON as int,
            T_LIMIT as int,
        ) is Some ==> r == (Vec3 { x: 0i64, y: 0i64, z: 0i64 }) || exists|a: Color, c: Color|
            #![trigger color_unit(a), color_unit(c)]
            color_unit(a) && color_unit(c) && r == (Vec3 {
                x: spec_fxmul(a.x as int, c.x as int) as i64,
                y: spec_fxmul(a.y as int, c.y as int) as i64,
                z: spec_fxmul(a.z as int, c.z as int) as i64,
            }),
    decreases depth,
{
    if depth == 0 {
        return Vec3 { x: 0, y: 0, z: 0 };
    }
    match world.hit(ray, T_EPSILON, T_LIMIT) {
        Option::None => sky_color(ray),
        Option::Some(rec) => {
            let m = &world.materials[rec.mat];
            match m.scatter(ray, &rec, rng) {
                Option::None => Vec3 { x: 0, y: 0, z: 0 },
                Option::Some((attenuation, scattered)) => {
                    let c = ray_color(&scattered, world, settings, depth - 1, rng);
                    proof {
                        lemma_fxmul_bound(attenuation.x as int, c.x as int, 65536, 65536);
                        lemma_fxmul_bound(attenuation.y as int, c.y as int, 65536, 65536);
                        lemma_fxmul_bound(attenuation.z as int, c.z as int, 65536, 65536);
                        assert((attenuation.x as int) * (c.x as int) >= 0 && (attenuation.y as int)
                            * (c.y as int) >= 0 && (attenuation.z as int) * (c.z as int) >= 0)
                            by (nonlinear_arith)
                            requires
                                attenuation.x >= 0,
                                attenuation.y >= 0,
                                attenuation.z >= 0,
                                c.x >= 0,
                                c.y >= 0,
                                c.z >= 0,
                        ;
                        lemma_tdiv_bounds((attenuation.x as int) * (c.x as int), 65536);
                        lemma_tdiv_bounds((attenuation.y as int) * (c.y as int), 65536);
                        lemma_tdiv_bounds((attenuation.z as int) * (c.z as int), 65536);
                        lemma_tdiv_le((attenuation.x as int) * (c.x as int), 65536, 65536);
                        lemma_tdiv_le((attenuation.y as int) * (c.y as int), 65536, 65536);
                        lemma_tdiv_le((attenuation.z as int) * (c.z as int), 65536, 65536);
                        assert(color_unit(attenuation) && color_unit(c));
                        if depth == 1 {
                            // The sub-estimate bottomed out black, and any
                            // attenuation of black is black.
                            assert((attenuation.x as int) * 0 == 0 && (attenuation.y as int) * 0
                                == 0 && (attenuation.z as int) * 0 == 0) by (nonlinear_arith);
                            crate::fx::lemma_tdiv_exact(0, 65536, 0, 0);
                        }
                    }
                    attenuation.mul(c)
                },
            }
        },
    }
}

/// One radiance sample through normalized image-plane coordinates: cast
/// the camera ray and estimate it at the configured depth. With a closed
/// lens and a scene the pinhole ray misses, the sample is exactly the sky
/// of that ray.
pub fn compute_color(
    settings: &Settings,
    u: i64,
    v: i64,
    world: &HittableList,
    rng: &mut rand::rngs::StdRng,
) -> (r: Color)
    requires
        camera_wf(settings.camera),
        list_wf(*world),
        0 <= u <= 131072,
        0 <= v <= 131072,
    ensures
        color_unit(r),
        settings.camera.lens_radius == 0 && settings.max_depth > 0 && spec_list_hit(
            world.objects@,
            spec_pinhole_ray(settings.camera, u as int, v as int),
            T_EPSILON as int,
            T_LIMIT as int,
        ) is None ==> r == spec_sky(spec_pinhole_ray(settings.camera, u as int, v as int).dir),
{
    let r = settings.camera.get_ray(u, v, rng);
    ray_color(&r, world, settings, settings.max_depth, rng)
}

/// The normalized horizontal coordinate of a sample in pixel column `x`:
/// the column plus the sub-pixel offset, over the pixel span.
pub open spec fn spec_u_coord(w: int, x: int, jit: int) -> int {
    spec_fxdiv(x * 65536 + jit, (w - 1) * 65536)
}

/// The normalized vertical coordinate of a sample in pixel row `y`, with
/// row zero at the top of the image.
pub open spec fn spec_v_coord(h: int, y: int, jit: int) -> int {
    spec_fxdiv((h - 1 - y) * 65536 + jit, (h - 1) * 65536)
}

/// Compute a sample coordinate; exact per `spec_u_coord`.
fn u_coord(w: u32, x: u32, jit: i64) -> (r: i64)
    requires
        2 <= w <= 16384,
        x < w,
        0 <= jit < 65536,
    ensures
        r == spec_u_coord(w as int, x as int, jit as int),
        0 <= r <= 131072,
{
    let num: i64 = (x as i64) * 65536 + jit;
    let den: i64 = ((w as i64) - 1) * 65536;
    proof {
        assert((num as int) * 65536 <= 131072 * (den as int) && 0 <= (num as int) * 65536)
            by (nonlinear_arith)
            requires
                num == (x as int) * 65536 + jit,
                den == ((w as int) - 1) * 65536,
                x < w,
                2 <= w,
                0 <= jit < 65536,
        ;
        lemma_tdiv_le((num as int) * 65536, den as int, 131072);
    }
    fxdiv(num, den)
}

/// Compute a sample coordinate; exact per `spec_v_coord`.
fn v_coord(h: u32, y: u32, jit: i64) -> (r: i64)
    requires
        2 <= h <= 16384,
        y < h,
        0 <= jit < 65536,
    ensures
        r == spec_v_coord(h as int, y as int, jit as int),
        0 <= r <= 131072,
{
    let num: i64 = ((h as i64) - 1 - (y as i64)) * 65536 + jit;
    let den: i64 = ((h as i64) - 1) * 65536;
    proof {
        assert((num as int) * 65536 <= 131072 * (den as int) && 0 <= (num as int) * 65536)
            by (nonlinear_arith)
            requires
                num == ((h as int) - 1 - y) * 65536 + jit,
                den == ((h as int) - 1) * 65536,
                y < h,
                2 <= h,
                0 <= jit < 65536,
        ;
        lemma_tdiv_le((num as int) * 65536, den as int, 131072);
    }
    fxdiv(num, den)
}

/// Whether a configuration renders deterministically to the sky alone:
/// no geometry to hit, no sample jitter, a closed lens, and at least one
/// bounce allowed.
pub open spec fn sky_only(s: Settings, objs: Seq<crate::hittable::Hittable>) -> bool {
    objs.len() == 0 && !s.jitter && s.camera.lens_radius == 0 && s.max_depth > 0
}

/// The color a sky-only render gives every sample of pixel `(x, y)`: the
/// sky of the pinhole ray through the pixel center.
pub open spec fn spec_fixed_pixel_color(s: Settings, x: int, y: int) -> Color {
    spec_sky(
        spec_pinhole_ray(
            s.camera,
            spec_u_coord(s.image_width as int, x, 32768),
            spec_v_coord(s.image_height as int, y, 32768),
        ).dir,
    )
}

/// Accumulate the configured number of samples for pixel `(x, y)` and
/// average them into three output bytes. In a sky-only configuration the
/// pixel is exactly the sky color's bytes.
pub fn render_pixel(
    settings: &Settings,
    world: &HittableList,
    x: u32,
    y: u32,
    rng: &mut rand::rngs::StdRng,
) -> (r: (u8, u8, u8))
    requires
        settings_wf(*settings),
        list_wf(*world),
        x < settings.image_width,
        y < settings.image_height,
    ensures
        sky_only(*settings, world.objects@) ==> r.0 == to_byte_spec(
            spec_fixed_pixel_color(*settings, x as int, y as int).x as int,
        ) && r.1 == to_byte_spec(spec_fixed_pixel_color(*settings, x as int, y as int).y as int)
            && r.2 == to_byte_spec(spec_fixed_pixel_color(*settings, x as int, y as int).z as int),
        exists|sx: int, sy: int, sz: int|
            #![trigger to_byte_spec(sx / (settings.sample_per_pixel as int)), to_byte_spec(
                sy / (settings.sample_per_pixel as int),
            ), to_byte_spec(sz / (settings.sample_per_pixel as int))]
            0 <= sx <= (settings.sample_per_pixel as int) * 65536 && 0 <= sy <= (
            settings.sample_per_pixel as int) * 65536 && 0 <= sz <= (
            settings.sample_per_pixel as int) * 65536 && r.0 == to_byte_spec(
                sx / (settings.sample_per_pixel as int),
            ) && r.1 == to_byte_spec(sy / (settings.sample_per_pixel as int)) && r.2
                == to_byte_spec(sz / (settings.sample_per_pixel as int)),
{
    let ghost det = spec_fixed_pixel_color(*settings, x as int, y as int);
    let spp = settings.sample_per_pixel;
    let mut sum_x: u64 = 0;
    let mut sum_y: u64 = 0;
    let mut sum_z: u64 = 0;
    let mut s: u32 = 0;
    while s < spp
        invariant
            settings_wf(*settings),
            list_wf(*world),
            x < settings.image_width,
            y < settings.image_height,
            s <= spp,
            spp == settings.sample_per_pixel,
            sum_x <= (s as int) * 65536,
            sum_y <= (s as int) * 65536,
            sum_z <= (s as int) * 65536,
            det == spec_fixed_pixel_color(*settings, x as int, y as int),
            sky_only(*settings, world.objects@) ==> sum_x == (s as int) * det.x && sum_y == (
            s as int) * det.y && sum_z == (s as int) * det.z,
        decreases spp - s,
    {
        let jit_u: i64 = if settings.jitter {
            crate::rng::random_double(rng)
        } else {
            32768
        };
        let jit_v: i64 = if settings.jitter {
            crate::rng::random_double(rng)
        } else {
            32768
        };
        let u = u_coord(settings.image_width, x, jit_u);
        let v = v_coord(settings.image_height, y, jit_v);
        let c = compute_color(settings, u, v, world, rng);
        proof {
            if sky_only(*settings, world.objects@) {
                assert(spec_list_hit(
                    world.objects@,
                    spec_pinhole_ray(settings.camera, u as int, v as int),
                    T_EPSILON as int,
                    T_LIMIT as int,
                ) is None);
                assert(c == det);
                assert((s as int + 1) * det.x == (s as int) * det.x + det.x) by (nonlinear_arith);
                assert((s as int + 1) * det.y == (s as int) * det.y + det.y) by (nonlinear_arith);
                assert((s as int + 1) * det.z == (s as int) * det.z + det.z) by (nonlinear_arith);
            }
            assert((s as int + 1) * 65536 == (s as int) * 65536 + 65536);
        }
        sum_x = sum_x + (c.x as u64);
        sum_y = sum_y + (c.y as u64);
        sum_z = sum_z + (c.z as u64);
        s = s + 1;
    }
    let d: u64 = spp as u64;
    let avg_x: u64 = sum_x / d;
    let avg_y: u64 = sum_y / d;
    let avg_z: u64 = sum_z / d;
    proof {
        vstd::arithmetic::div_mod::lemma_div_is_ordered(sum_x as int, (spp as int) * 65536, spp as int);
        vstd::arithmetic::div_mod::lemma_div_is_ordered(sum_y as int, (spp as int) * 65536, spp as int);
        vstd::arithmetic::div_mod::lemma_div_is_ordered(sum_z as int, (spp as int) * 65536, spp as int);
        vstd::arithmetic::div_mod::lemma_div_multiples_vanish(65536, spp as int);
        if sky_only(*settings, world.objects@) {
            vstd::arithmetic::div_mod::lemma_div_multiples_vanish(det.x as int, spp as int);
            vstd::arithmetic::div_mod::lemma_div_multiples_vanish(det.y as int, spp as int);
            vstd::arithmetic::div_mod::lemma_div_multiples_vanish(det.z as int, spp as int);
            assert((spp as int) * det.x == sum_x);
        }
    }
    let out = (to_byte(avg_x as i64), to_byte(avg_y as i64), to_byte(avg_z as i64));
    proof {
        // The channel sums witness the byte-average shape of the pixel.
        assert(out.0 == to_byte_spec((sum_x as int) / (settings.sample_per_pixel as int))
            && out.1 == to_byte_spec((sum_y as int) / (settings.sample_per_pixel as int))
            && out.2 == to_byte_spec((sum_z as int) / (settings.sample_per_pixel as int)));
    }
    out
}

/// Render one scanline into three bytes per pixel, left to right. In a
/// sky-only configuration every pixel is exactly its sky bytes.
pub fn render_row(
    settings: &Settings,
    world: &HittableList,
    y: u32,
    rng: &mut rand::rngs::StdRng,
) -> (r: Vec<u8>)
    requires
        settings_wf(*settings),
        list_wf(*world),
        y < settings.image_height,
    ensures
        r@.len() == 3 * settings.image_width,
        sky_only(*settings, world.objects@) ==> forall|x: int|
            0 <= x < settings.image_width ==> #[trigger] r@[3 * x] == to_byte_spec(
                spec_fixed_pixel_color(*settings, x, y as int).x as int,
            ) && r@[3 * x + 1] == to_byte_spec(
                spec_fixed_pixel_color(*settings, x, y as int).y as int,
            ) && r@[3 * x + 2] == to_byte_spec(
                spec_fixed_pixel_color(*settings, x, y as int).z as int,
            ),
{
    let w = settings.image_width;
    let mut out: Vec<u8> = Vec::new();
    let mut x: u32 = 0;
    while x < w
        invariant
            settings_wf(*settings),
            list_wf(*world),
            y < settings.image_height,
            w == settings.image_width,
            x <= w,
            out@.len() == 3 * x,
            sky_only(*settings, world.objects@) ==> forall|xx: int|
                0 <= xx < x ==> #[trigger] out@[3 * xx] == to_byte_spec(
                    spec_fixed_pixel_color(*settings, xx, y as int).x as int,
                ) && out@[3 * xx + 1] == to_byte_spec(
                    spec_fixed_pixel_color(*settings, xx, y as int).y as int,
                ) && out@[3 * xx + 2] == to_byte_spec(
                    spec_fixed_pixel_color(*settings, xx, y as int).z as int,
                ),
        decreases w - x,
    {
        let px = render_pixel(settings, world, x, y, rng);
        let ghost pre = out@;
        out.push(px.0);
        out.push(px.1);
        out.push(px.2);
        proof {
            if sky_only(*settings, world.objects@) {
                assert forall|xx: int| 0 <= xx < x + 1 implies #[trigger] out@[3 * xx]
                    == to_byte_spec(spec_fixed_pixel_color(*settings, xx, y as int).x as int)
                    && out@[3 * xx + 1] == to_byte_spec(
                    spec_fixed_pixel_color(*settings, xx, y as int).y as int,
                ) && out@[3 * xx + 2] == to_byte_spec(
                    spec_fixed_pixel_color(*settings, xx, y as int).z as int,
                ) by {
                    if xx < x {
                        assert(out@[3 * xx] == pre[3 * xx]);
                        assert(out@[3 * xx + 1] == pre[3 * xx + 1]);
                        assert(out@[3 * xx + 2] == pre[3 * xx + 2]);
                    } else {
                        assert(3 * xx == pre.len());
                        assert(out@[3 * xx] == px.0);
                        assert(out@[3 * xx + 1] == px.1);
                        assert(out@[3 * xx + 2] == px.2);
                    }
                }
            }
        }
        x = x + 1;
    }
    out
}

/// Render the whole image into a row-major pixel buffer with three bytes
/// per pixel, top row first. Misconfiguration is rejected before any
/// work; in a sky-only configuration every pixel of the result is
/// exactly its sky bytes — no pixel is black.
pub fn render(settings: &Settings, world: &HittableList, seed: u64) -> (res: Result<
    Vec<u8>,
    RenderError,
>)
    requires
        camera_wf(settings.camera),
        list_wf(*world),
    ensures
        settings.image_width < 2 || settings.image_height < 2 ==> res == Result::<
            Vec<u8>,
            RenderError,
        >::Err(RenderError::ImageTooSmall),
        settings.image_width >= 2 && settings.image_height >= 2 && (settings.image_width > 16384
            || settings.image_height > 16384) ==> res == Result::<Vec<u8>, RenderError>::Err(
            RenderError::ImageTooLarge,
        ),
        2 <= settings.image_width <= 16384 && 2 <= settings.image_height <= 16384
            && settings.sample_per_pixel == 0 ==> res == Result::<Vec<u8>, RenderError>::Err(
            RenderError::NoSamples,
        ),
        2 <= settings.image_width <= 16384 && 2 <= settings.image_height <= 16384
            && settings.sample_per_pixel > 1048576 ==> res == Result::<Vec<u8>, RenderError>::Err(
            RenderError::TooManySamples,
        ),
        settings_wf(*settings) <==> res is Ok,
        res matches Ok(buf) ==> buf@.len() == 3 * settings.image_width * settings.image_height,
        res matches Ok(buf) ==> sky_only(*settings, world.objects@) ==> forall|x: int, y: int|
            0 <= x < settings.image_width && 0 <= y < settings.image_height
                ==> #[trigger] buf@[3 * (y * settings.image_width + x)] == to_byte_spec(
                spec_fixed_pixel_color(*settings, x, y).x as int,
            ) && buf@[3 * (y * settings.image_width + x) + 1] == to_byte_spec(
                spec_fixed_pixel_color(*settings, x, y).y as int,
            ) && buf@[3 * (y * settings.image_width + x) + 2] == to_byte_spec(
                spec_fixed_pixel_color(*settings, x, y).z as int,
            ),
{
    let w = settings.image_width;
    let h = settings.image_height;
    if w < 2 || h < 2 {
        return Err(RenderError::ImageTooSmall);
    }
    if w > 16384 || h > 16384 {
        return Err(RenderError::ImageTooLarge);
    }
    if settings.sample_per_pixel == 0 {
        return Err(RenderError::NoSamples);
    }
    if settings.sample_per_pixel > 1048576 {
        return Err(RenderError::TooManySamples);
    }
    let mut buf: Vec<u8> = Vec::new();
    let mut y: u32 = 0;
    proof {
        assert(3 * 0int * (w as int) == 0) by (nonlinear_arith);
    }
    while y < h
        invariant
            settings_wf(*settings),
            list_wf(*world),
            w == settings.image_width,
            h == settings.image_height,
            y <= h,
            buf@.len() == 3 * (y as int) * w,
            sky_only(*settings, world.objects@) ==> forall|xx: int, yy: int|
                0 <= xx < w && 0 <= yy < y ==> #[trigger] buf@[3 * (yy * w + xx)]
                    == to_byte_spec(spec_fixed_pixel_color(*settings, xx, yy).x as int) && buf@[3
                    * (yy * w + xx) + 1] == to_byte_spec(
                    spec_fixed_pixel_color(*settings, xx, yy).y as int,
                ) && buf@[3 * (yy * w + xx) + 2] == to_byte_spec(
                    spec_fixed_pixel_color(*settings, xx, yy).z as int,
                ),
        decreases h - y,
    {
        let mut row_rng = crate::rng::rng_from_seed(seed ^ (y as u64));
        let ghost old_buf = buf@;
        let mut row = render_row(settings, world, y, &mut row_rng);
        let ghost row_view = row@;
        buf.append(&mut row);
        proof {
            if sky_only(*settings, world.objects@) {
                assert forall|xx: int, yy: int|
                    0 <= xx < w && 0 <= yy < y + 1 implies #[trigger] buf@[3 * (yy * w + xx)]
                        == to_byte_spec(spec_fixed_pixel_color(*settings, xx, yy).x as int)
                        && buf@[3 * (yy * w + xx) + 1] == to_byte_spec(
                        spec_fixed_pixel_color(*settings, xx, yy).y as int,
                    ) && buf@[3 * (yy * w + xx) + 2] == to_byte_spec(
                        spec_fixed_pixel_color(*settings, xx, yy).z as int,
                    ) by {
                    if yy < y {
                        assert(3 * (yy * w + xx) + 2 < 3 * (y as int) * w) by (nonlinear_arith)
                            requires
                                0 <= xx < w,
                                0 <= yy <= (y as int) - 1,
                        ;
                        assert(buf@[3 * (yy * w + xx)] == old_buf[3 * (yy * w + xx)]);
                        assert(buf@[3 * (yy * w + xx) + 1] == old_buf[3 * (yy * w + xx) + 1]);
                        assert(buf@[3 * (yy * w + xx) + 2] == old_buf[3 * (yy * w + xx) + 2]);
                    } else {
                        assert(3 * (yy * w + xx) == 3 * (y as int) * w + 3 * xx)
                            by (nonlinear_arith)
                            requires
                                yy == y as int,
                        ;
                        assert(buf@[3 * (yy * w + xx)] == row_view[3 * xx]);
                        assert(buf@[3 * (yy * w + xx) + 1] == row_view[3 * xx + 1]);
                        assert(buf@[3 * (yy * w + xx) + 2] == row_view[3 * xx + 2]);
                    }
                }
            }
            assert(3 * ((y as int) + 1) * w == 3 * (y as int) * w + 3 * w) by (nonlinear_arith);
        }
        y = y + 1;
    }
    proof {
        assert(3 * (h as int) * w == 3 * w * h) by (nonlinear_arith);
    }
    Ok(buf)
}

} // verus!
