use pathtracer::camera::{Camera, CameraError};
use pathtracer::hittable::Hittable;
use pathtracer::hittable_list::HittableList;
use pathtracer::material::{Lambertian, Material};
use pathtracer::quad::Quad;
use pathtracer::ray::Ray;
use pathtracer::render::{ray_color, render, sky_color, RenderError, Settings};
use pathtracer::rng::rng_from_seed;
use pathtracer::sphere::Sphere;
use pathtracer::vec3::dot;
use pathtracer::vec3::Vec3;

fn camera_down_z() -> Camera {
    Camera::new(
        Vec3::new(0, 0, 0),
        Vec3::new(0, 0, -65536),
        Vec3::new(0, 65536, 0),
        90 * 65536,
        0,
        65536,
    )
    .expect("camera parameters are in range")
}

fn one_gray_sphere(rng: &mut rand::rngs::StdRng) -> HittableList {
    let mut world = HittableList::new();
    let gray = Lambertian::new(Vec3::new(32768, 32768, 32768), None, rng);
    let h = world.add_material(Material::Lambertian(gray));
    world.add(Hittable::Sphere(Sphere::new(Vec3::new(0, 0, -65536), 32768, h)));
    world
}

#[test]
fn sphere_hit_normal_points_away_from_center() {
    let mut rng = rng_from_seed(1);
    let world = one_gray_sphere(&mut rng);
    // A ray aimed straight at the sphere's center from outside.
    let ray = Ray::new(Vec3::new(0, 0, 0), Vec3::new(0, 0, -65536));
    let rec = world.hit(&ray, 7, 0x100_0000_0000).expect("the ray meets the sphere");
    assert!(rec.front_face);
    let off = rec.p.sub(Vec3::new(0, 0, -65536));
    assert!(dot(rec.normal, off) > 0);
}

#[test]
fn quad_hit_reports_surface_coordinates() {
    let mut rng = rng_from_seed(2);
    let mut world = HittableList::new();
    let gray = Lambertian::new(Vec3::new(32768, 32768, 32768), None, &mut rng);
    let h = world.add_material(Material::Lambertian(gray));
    let quad = Quad::new(
        Vec3::new(-65536, -65536, -131072),
        Vec3::new(131072, 0, 0),
        Vec3::new(0, 131072, 0),
        h,
    )
    .expect("the edges span a plane");
    world.add(Hittable::Quad(quad));
    let ray = Ray::new(Vec3::new(0, 0, 0), Vec3::new(0, 0, -65536));
    let rec = world.hit(&ray, 7, 0x100_0000_0000).expect("the ray meets the quad");
    assert_eq!(rec.t, 131072);
    assert_eq!((rec.uv.x, rec.uv.y), (32768, 32768));
}

#[test]
fn zero_depth_estimate_is_black() {
    let mut rng = rng_from_seed(4);
    let world = one_gray_sphere(&mut rng);
    let settings = Settings {
        image_width: 4,
        image_height: 4,
        parallel: false,
        sample_per_pixel: 1,
        max_depth: 0,
        jitter: false,
        camera: camera_down_z(),
    };
    let ray = Ray::new(Vec3::new(0, 0, 0), Vec3::new(12345, -678, -65536));
    let c = ray_color(&ray, &world, &settings, 0, &mut rng);
    assert_eq!((c.x, c.y, c.z), (0, 0, 0));
}

#[test]
fn empty_scene_renders_the_sky_everywhere() {
    let mut rng = rng_from_seed(5);
    let world = HittableList::new();
    let settings = Settings {
        image_width: 8,
        image_height: 6,
        parallel: false,
        sample_per_pixel: 3,
        max_depth: 4,
        jitter: false,
        camera: camera_down_z(),
    };
    let buf = render(&settings, &world, 99).expect("settings are valid");
    assert_eq!(buf.len(), 8 * 6 * 3);
    // No pixel is black, and each pixel equals the sky of its own camera
    // ray (the lens is closed, so the ray is deterministic).
    for y in 0..6u32 {
        for x in 0..8u32 {
            let i = ((y * 8 + x) * 3) as usize;
            assert!(buf[i] > 0 && buf[i + 1] > 0 && buf[i + 2] > 0);
        }
    }
    // The top of the image is bluer (closer to the zenith color) than the
    // bottom, which sits nearer the white horizon.
    assert!(buf[0] < buf[(5 * 8 * 3) as usize]);
    // Spot-check one pixel against the sky of its deterministic ray.
    let mut rng2 = rng_from_seed(0);
    let u = pathtracer::fx::fxdiv(3 * 65536 + 32768, 7 * 65536);
    let v = pathtracer::fx::fxdiv(3 * 65536 + 32768, 5 * 65536);
    let ray = settings.camera.get_ray(u, v, &mut rng2);
    let sky = sky_color(&ray);
    let expect = pathtracer::color::to_rgb(sky);
    let i = ((2 * 8 + 3) * 3) as usize;
    assert_eq!((buf[i], buf[i + 1], buf[i + 2]), expect);
    let _ = rng;
}

#[test]
fn one_bounce_center_pixel_is_darker_than_zenith() {
    let mut rng = rng_from_seed(6);
    let world = one_gray_sphere(&mut rng);
    let settings = Settings {
        image_width: 32,
        image_height: 18,
        parallel: false,
        sample_per_pixel: 1,
        max_depth: 1,
        jitter: false,
        camera: camera_down_z(),
    };
    let buf = render(&settings, &world, 17).expect("settings are valid");
    let i = ((9 * 32 + 16) * 3) as usize;
    // The zenith color's bytes.
    let zenith = (127u8, 179u8, 255u8);
    assert!(buf[i] < zenith.0);
    assert!(buf[i + 1] < zenith.1);
    assert!(buf[i + 2] < zenith.2);
}

#[test]
fn touching_spheres_split_the_image_by_hue() {
    let mut rng = rng_from_seed(8);
    let mut world = HittableList::new();
    let blue = Lambertian::new(Vec3::new(0, 0, 65536), None, &mut rng);
    let red = Lambertian::new(Vec3::new(65536, 0, 0), None, &mut rng);
    let hb = world.add_material(Material::Lambertian(blue));
    let hr = world.add_material(Material::Lambertian(red));
    // Radius is the cosine of half a right angle, so the spheres touch at
    // the image center.
    let r = 46341;
    world.add(Hittable::Sphere(Sphere::new(Vec3::new(-r, 0, -65536), r, hb)));
    world.add(Hittable::Sphere(Sphere::new(Vec3::new(r, 0, -65536), r, hr)));
    let w = 32u32;
    let h = 18u32;
    let settings = Settings {
        image_width: w,
        image_height: h,
        parallel: false,
        sample_per_pixel: 4,
        max_depth: 16,
        jitter: false,
        camera: camera_down_z(),
    };
    let buf = render(&settings, &world, 23).expect("settings are valid");
    // Tally the middle row: the left half must lean blue, the right red.
    let y = (h / 2) as usize;
    let mut left_red = 0u32;
    let mut left_blue = 0u32;
    let mut right_red = 0u32;
    let mut right_blue = 0u32;
    for x in 0..(w as usize) {
        let i = (y * (w as usize) + x) * 3;
        if x < (w as usize) / 2 {
            left_red += buf[i] as u32;
            left_blue += buf[i + 2] as u32;
        } else {
            right_red += buf[i] as u32;
            right_blue += buf[i + 2] as u32;
        }
    }
    assert!(left_blue > right_blue, "left {} right {}", left_blue, right_blue);
    assert!(right_red > left_red, "right {} left {}", right_red, left_red);
}

#[test]
fn misconfigured_renders_are_rejected() {
    let world = HittableList::new();
    let cam = camera_down_z();
    let mut s = Settings {
        image_width: 1,
        image_height: 6,
        parallel: false,
        sample_per_pixel: 1,
        max_depth: 1,
        jitter: false,
        camera: cam,
    };
    assert_eq!(render(&s, &world, 0), Err(RenderError::ImageTooSmall));
    s.image_width = 100000;
    assert_eq!(render(&s, &world, 0), Err(RenderError::ImageTooLarge));
    s.image_width = 8;
    s.sample_per_pixel = 0;
    assert_eq!(render(&s, &world, 0), Err(RenderError::NoSamples));
    s.sample_per_pixel = 2000000;
    assert_eq!(render(&s, &world, 0), Err(RenderError::TooManySamples));
}

#[test]
fn degenerate_cameras_are_rejected() {
    let r = Camera::new(
        Vec3::new(0, 0, 0),
        Vec3::new(0, 0, 0),
        Vec3::new(0, 65536, 0),
        90 * 65536,
        0,
        65536,
    );
    assert_eq!(r, Err(CameraError::Degenerate));
    let r2 = Camera::new(
        Vec3::new(0, 0, 0),
        Vec3::new(0, 0, -65536),
        Vec3::new(0, 65536, 0),
        0,
        0,
        65536,
    );
    assert_eq!(r2, Err(CameraError::OutOfRange));
}
