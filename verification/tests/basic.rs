use pathtracer::color::{black, to_byte, to_rgb, white};
use pathtracer::common::{checkerboard, degrees_to_radians, tan_fx};
use pathtracer::fx::{emod64, fxdiv, fxmul, fxsqrt, isqrt};
use pathtracer::hittable::HitRecord;
use pathtracer::material::{dielectric_cannot_refract, Dielectric, Lambertian, Metal};
use pathtracer::noise::{perlin_generate_perm, Perlin};
use pathtracer::ray::Ray;
use pathtracer::rng::{random_double, rng_from_seed};
use pathtracer::vec3::{cross, dot, reflect, unit_vector, Vec3};

#[test]
fn fxmul_rounds_toward_zero() {
    assert_eq!(fxmul(65536, 65536), 65536);
    assert_eq!(fxmul(32768, 32768), 16384);
    assert_eq!(fxmul(-32768, 32768), -16384);
    assert_eq!(fxmul(3, 3), 0);
}

#[test]
fn fxdiv_exact_values() {
    assert_eq!(fxdiv(65536, 131072), 32768);
    assert_eq!(fxdiv(-65536, 131072), -32768);
    assert_eq!(fxdiv(196608, 3), 65536 * 65536);
}

#[test]
fn isqrt_brackets() {
    assert_eq!(isqrt(0), 0);
    assert_eq!(isqrt(1), 1);
    assert_eq!(isqrt(24), 4);
    assert_eq!(isqrt(25), 5);
    assert_eq!(fxsqrt(4 * 65536), 2 * 65536);
}

#[test]
fn emod64_is_euclidean() {
    assert_eq!(emod64(-5, 3), 1);
    assert_eq!(emod64(5, 3), 2);
    assert_eq!(emod64(-6, 3), 0);
}

#[test]
fn to_byte_clamps_and_scales() {
    assert_eq!(to_byte(0), 0);
    assert_eq!(to_byte(-100), 0);
    assert_eq!(to_byte(65536), 255);
    assert_eq!(to_byte(32768), 127);
    let w = to_rgb(white());
    assert_eq!(w, (255, 255, 255));
    assert_eq!(to_rgb(black()), (0, 0, 0));
}

#[test]
fn dot_and_cross_exact() {
    let a = Vec3::new(65536, 0, 0);
    let b = Vec3::new(0, 65536, 0);
    assert_eq!(dot(a, b), 0);
    assert_eq!(dot(a, a), 65536);
    let c = cross(a, b);
    assert_eq!((c.x, c.y, c.z), (0, 0, 65536));
}

#[test]
fn unit_vector_of_three_four_five() {
    let v = Vec3::new(3 * 65536, 4 * 65536, 0);
    let u = unit_vector(v);
    assert_eq!(u.x, 39321);
    assert_eq!(u.y, 52428);
    assert_eq!(u.z, 0);
}

// Mirroring a straight-down direction over an upward unit normal gives
// the straight-up direction of the same length, and the normal component
// flips sign exactly.
#[test]
fn reflect_flips_normal_component() {
    let v = Vec3::new(0, 0, -65536);
    let n = Vec3::new(0, 0, 65536);
    let r = reflect(v, n);
    assert_eq!((r.x, r.y, r.z), (0, 0, 65536));
    assert_eq!(dot(r, n), -dot(v, n));
    assert_eq!(dot(r, r), dot(v, v));
}

// From the dense side at a grazing angle the dielectric always scatters,
// and the outgoing ray is the mirror reflection.
#[test]
fn total_internal_reflection_mirrors() {
    let mut rng = rng_from_seed(13);
    let d = Dielectric::new(98304);
    let rec = HitRecord {
        p: Vec3::new(0, 0, -65536),
        normal: Vec3::new(0, 0, 65536),
        mat: 0,
        t: 65536,
        front_face: false,
        uv: Vec3::new(0, 0, 0),
    };
    // Nearly parallel to the surface, so the sine of incidence is large.
    let r_in = Ray::new(Vec3::new(0, 0, 0), Vec3::new(65536, 0, -3000));
    for _ in 0..50 {
        let (att, out) = d.scatter(&r_in, &rec, &mut rng).expect("total internal reflection scatters");
        assert_eq!((att.x, att.y, att.z), (65536, 65536, 65536));
        let u = unit_vector(Vec3::new(65536, 0, -3000));
        let mirror = reflect(u, rec.normal);
        assert_eq!((out.dir.x, out.dir.y, out.dir.z), (mirror.x, mirror.y, mirror.z));
    }
}

#[test]
fn normal_incidence_never_total_internal_reflection() {
    // Glass, both ways through the surface.
    assert!(!dielectric_cannot_refract(98304, 65536));
    assert!(!dielectric_cannot_refract(43690, 65536));
    // Grazing incidence from the dense side does reflect totally.
    assert!(dielectric_cannot_refract(98304, 0));
}

#[test]
fn tangent_anchor_values() {
    assert_eq!(tan_fx(0), 0);
    // Tangent of an eighth of a turn is one, up to rounding.
    let t = tan_fx(51472);
    assert!(t > 64880 && t < 66190, "tan at eighth turn: {}", t);
    assert_eq!(degrees_to_radians(180 * 65536), 205887);
}

#[test]
fn checkerboard_parity() {
    // One and a half cells rounds to the second cell: even.
    assert!(!checkerboard(98304, 65536));
    // Half a cell rounds to the first cell: odd.
    assert!(checkerboard(32768, 65536));
}

#[test]
fn lambertian_always_scatters() {
    let mut rng = rng_from_seed(7);
    let lam = Lambertian::new(Vec3::new(32768, 32768, 32768), None, &mut rng);
    let rec = HitRecord {
        p: Vec3::new(0, 0, -65536),
        normal: Vec3::new(0, 0, 65536),
        mat: 0,
        t: 65536,
        front_face: true,
        uv: Vec3::new(0, 0, 0),
    };
    let r_in = Ray::new(Vec3::new(0, 0, 0), Vec3::new(0, 0, -65536));
    for _ in 0..100 {
        let res = lam.scatter(&r_in, &rec, &mut rng);
        let (att, out) = res.expect("diffuse scatter must always succeed");
        assert_eq!((att.x, att.y, att.z), (32768, 32768, 32768));
        assert_eq!((out.orig.x, out.orig.y, out.orig.z), (0, 0, -65536));
    }
}

#[test]
fn metal_mirror_without_fuzz() {
    let mut rng = rng_from_seed(9);
    let met = Metal::new(Vec3::new(65536, 65536, 65536), 0);
    let rec = HitRecord {
        p: Vec3::new(0, 0, -65536),
        normal: Vec3::new(0, 0, 65536),
        mat: 0,
        t: 65536,
        front_face: true,
        uv: Vec3::new(0, 0, 0),
    };
    let r_in = Ray::new(Vec3::new(0, 0, 0), Vec3::new(0, 0, -65536));
    let (att, out) = met.scatter(&r_in, &rec, &mut rng).expect("mirror reflection leaves");
    assert_eq!((att.x, att.y, att.z), (65536, 65536, 65536));
    assert_eq!((out.dir.x, out.dir.y, out.dir.z), (0, 0, 65536));
}

#[test]
fn material_parameters_are_clamped() {
    let met = Metal::new(Vec3::new(2 * 65536, -5, 100), 2 * 65536);
    assert_eq!(met.fuzz, 65536);
    assert_eq!((met.albedo.x, met.albedo.y, met.albedo.z), (65536, 0, 100));
    let d = Dielectric::new(0);
    assert_eq!(d.ir, 16384);
    let d2 = Dielectric::new(-98304);
    assert_eq!(d2.ir, -98304);
}

#[test]
fn perlin_tables_are_complete() {
    let mut rng = rng_from_seed(11);
    let perm = perlin_generate_perm(&mut rng);
    assert_eq!(perm.len(), 256);
    assert!(perm.iter().all(|&v| v < 256));
    // A true permutation: every index occurs exactly once.
    let mut seen = [false; 256];
    for &v in perm.iter() {
        assert!(!seen[v as usize]);
        seen[v as usize] = true;
    }
    let pl = Perlin::new(&mut rng);
    let n = pl.cell_noise(Vec3::new(12345, -54321, 999));
    assert!((0..65536).contains(&n));
}

#[test]
fn random_double_stays_in_unit_interval() {
    let mut rng = rng_from_seed(3);
    for _ in 0..1000 {
        let d = random_double(&mut rng);
        assert!((0..65536).contains(&d));
    }
}
