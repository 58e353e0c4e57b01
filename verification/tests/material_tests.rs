use raytracer::hittable::HitRecord;
use raytracer::material::{Bend, Dielectric, Lambertian, MaterialType, Metal};
use raytracer::scalar::Scalar;
use raytracer::vec3::Vec3;

fn s(x: f64) -> Scalar {
    Scalar::from_bits(x.to_bits())
}

fn f(x: Scalar) -> f64 {
    f64::from_bits(x.to_bits())
}

fn v(x: f64, y: f64, z: f64) -> Vec3 {
    Vec3::new(s(x), s(y), s(z))
}

fn c(a: &Vec3) -> [f64; 3] {
    [f(a.x()), f(a.y()), f(a.z())]
}

fn dot(a: [f64; 3], b: [f64; 3]) -> f64 {
    a[0] * b[0] + a[1] * b[1] + a[2] * b[2]
}

fn reflect(d: [f64; 3], n: [f64; 3]) -> [f64; 3] {
    let k = 2.0 * dot(d, n);
    [d[0] - k * n[0], d[1] - k * n[1], d[2] - k * n[2]]
}

fn refract(uv: [f64; 3], n: [f64; 3], ratio: f64) -> [f64; 3] {
    let cos_theta = f64::min(-dot(uv, n), 1.0);
    let perp = [
        ratio * (uv[0] + cos_theta * n[0]),
        ratio * (uv[1] + cos_theta * n[1]),
        ratio * (uv[2] + cos_theta * n[2]),
    ];
    let k = -f64::sqrt(f64::abs(1.0 - dot(perp, perp)));
    [perp[0] + k * n[0], perp[1] + k * n[1], perp[2] + k * n[2]]
}

fn floor_hit() -> HitRecord {
    let mut rec = HitRecord::default();
    rec.p = v(1.0, 0.0, 2.0);
    rec.t = s(3.0);
    rec.is_hit = true;
    rec.self_face_normal(s(-1.0), v(0.0, 1.0, 0.0));
    rec
}

#[test]
fn lambertian_scatters_toward_the_target() {
    let m = Lambertian::new(v(0.4, 0.2, 0.1));
    let rec = floor_hit();
    let out = m.scatter(&rec, v(0.3, 1.2, -0.1));
    assert!(out.is_scattered);
    assert_eq!(c(&out.attenuation), [0.4, 0.2, 0.1]);
    assert_eq!(c(out.ray.origin()), [1.0, 0.0, 2.0]);
    assert_eq!(c(out.ray.dir()), [0.3, 1.2, -0.1]);
}

#[test]
fn lambertian_falls_back_to_the_normal() {
    let m = Lambertian::new(v(0.4, 0.2, 0.1));
    let rec = floor_hit();
    let out = m.scatter(&rec, v(1e-9, -1e-9, 0.0));
    assert!(out.is_scattered);
    assert_eq!(c(out.ray.dir()), [0.0, 1.0, 0.0]);
    let kept = m.scatter(&rec, v(1e-9, 1e-8, 0.0));
    assert_eq!(c(kept.ray.dir()), [1e-9, 1e-8, 0.0]);
}

#[test]
fn near_zero_needs_every_component_small() {
    assert!(v(0.0, 0.0, 0.0).near_zero());
    assert!(v(9.9e-9, -9.9e-9, -0.0).near_zero());
    assert!(!v(1e-8, 0.0, 0.0).near_zero());
    assert!(!v(0.0, -1e-8, 0.0).near_zero());
    assert!(!v(0.0, 0.0, 1.0).near_zero());
    assert!(!v(f64::NAN, 0.0, 0.0).near_zero());
}

#[test]
fn metal_fuzz_is_brought_into_range() {
    assert_eq!(f(Metal::new(v(1.0, 1.0, 1.0), s(0.3)).fuzz), 0.3);
    assert_eq!(f(Metal::new(v(1.0, 1.0, 1.0), s(1.0)).fuzz), 1.0);
    assert_eq!(f(Metal::new(v(1.0, 1.0, 1.0), s(7.0)).fuzz), 1.0);
    assert_eq!(f(Metal::new(v(1.0, 1.0, 1.0), s(-0.5)).fuzz), 0.0);
    assert_eq!(f(Metal::new(v(1.0, 1.0, 1.0), s(0.0)).fuzz), 0.0);
    assert_eq!(f(Metal::new(v(1.0, 1.0, 1.0), s(f64::NAN)).fuzz), 1.0);
}

#[test]
fn a_polished_metal_mirrors() {
    let m = Metal::new(v(0.8, 0.6, 0.2), s(0.0));
    let rec = floor_hit();
    let incoming = [0.6, -0.8, 0.0];
    let n = c(&rec.normal);
    let mirrored = reflect(incoming, n);
    let facing = dot(mirrored, n);
    let out = m.scatter(&rec, v(mirrored[0], mirrored[1], mirrored[2]), s(facing));
    assert!(out.is_scattered);
    assert_eq!(c(out.ray.dir()), [0.6, 0.8, 0.0]);
    assert_eq!(c(out.ray.origin()), [1.0, 0.0, 2.0]);
    assert_eq!(c(&out.attenuation), [0.8, 0.6, 0.2]);
}

#[test]
fn a_metal_absorbs_what_points_into_the_surface() {
    let m = Metal::new(v(0.8, 0.6, 0.2), s(1.0));
    let rec = floor_hit();
    let below = m.scatter(&rec, v(0.6, -0.1, 0.0), s(-0.1));
    assert!(!below.is_scattered);
    let grazing = m.scatter(&rec, v(1.0, 0.0, 0.0), s(0.0));
    assert!(!grazing.is_scattered);
    let undefined = m.scatter(&rec, v(1.0, 0.0, 0.0), s(f64::NAN));
    assert!(!undefined.is_scattered);
    let above = m.scatter(&rec, v(0.6, 0.1, 0.0), s(0.1));
    assert!(above.is_scattered);
}

#[test]
fn the_refraction_ratio_depends_on_the_side() {
    let glass = Dielectric::new(s(1.5));
    assert_eq!(f(glass.refraction_ratio(true, s(1.0 / 1.5))), 1.0 / 1.5);
    assert_eq!(f(glass.refraction_ratio(false, s(1.0 / 1.5))), 1.5);
}

#[test]
fn the_cosine_is_at_most_one() {
    for x in [-1.0, -0.0, 0.0, 0.3, 0.9999999, 1.0, 1.0000000000000002, 7.0, f64::NAN] {
        assert_eq!(f(Dielectric::cos_theta(s(x))).to_bits(), f64::min(x, 1.0).to_bits());
    }
}

#[test]
fn total_internal_reflection_is_recognised() {
    assert!(Dielectric::cannot_refract(s(1.0000001)));
    assert!(!Dielectric::cannot_refract(s(1.0)));
    assert!(!Dielectric::cannot_refract(s(0.3)));
    assert!(!Dielectric::cannot_refract(s(f64::NAN)));
}

#[test]
fn the_draw_decides_between_reflection_and_refraction() {
    assert!(Dielectric::bend(s(0.04), s(0.03)) == Bend::Reflect);
    assert!(Dielectric::bend(s(0.04), s(0.04)) == Bend::Refract);
    assert!(Dielectric::bend(s(0.04), s(0.9)) == Bend::Refract);
    assert!(Dielectric::bend(s(1.0), s(0.999999)) == Bend::Reflect);
    assert!(Dielectric::bend(s(0.0), s(0.0)) == Bend::Refract);
}

#[test]
fn glass_never_absorbs_and_never_tints() {
    let glass = Dielectric::new(s(1.5));
    let rec = floor_hit();
    let out = glass.scatter(&rec, v(0.1, -0.9, 0.2));
    assert!(out.is_scattered);
    assert_eq!(c(&out.attenuation), [1.0, 1.0, 1.0]);
    assert_eq!(c(out.ray.origin()), [1.0, 0.0, 2.0]);
    assert_eq!(c(out.ray.dir()), [0.1, -0.9, 0.2]);
}

fn schlick(cosine: f64, ratio: f64) -> f64 {
    let r0 = (1.0 - ratio) / (1.0 + ratio);
    let r0 = r0 * r0;
    r0 + (1.0 - r0) * (1.0 - cosine).powi(5)
}

#[test]
fn a_refracted_ray_is_not_bent_at_index_one() {
    let air = Dielectric::new(s(1.0));
    let rec = floor_hit();
    let n = c(&rec.normal);
    for incoming in [[0.6, -0.8, 0.0], [0.0, -1.0, 0.0], [0.28, -0.96, 0.0]] {
        for front_face in [true, false] {
            let ratio = f(air.refraction_ratio(front_face, s(1.0 / 1.0)));
            assert_eq!(ratio, 1.0);
            let cos_theta = f(Dielectric::cos_theta(s(-dot(incoming, n))));
            let sin_theta = f64::sqrt(1.0 - cos_theta * cos_theta);
            assert!(!Dielectric::cannot_refract(s(ratio * sin_theta)));
            // At ratio one the reflectance is (1 - cos)^5: zero only for a ray
            // along the normal. A draw that is not below it lets the ray through.
            let reflectance = schlick(cos_theta, ratio);
            assert_eq!(reflectance, (1.0 - cos_theta).powi(5));
            let passed =
                Dielectric::reflect_or_refract(s(ratio * sin_theta), s(reflectance), s(reflectance));
            assert!(passed == Bend::Refract);
            let bent = refract(incoming, n, ratio);
            let out = air.scatter(&rec, v(bent[0], bent[1], bent[2]));
            assert!(out.is_scattered);
            for k in 0..3 {
                assert!((c(out.ray.dir())[k] - incoming[k]).abs() < 1e-12);
            }
        }
    }
}

#[test]
fn a_small_draw_reflects_even_at_index_one() {
    // Off the normal the reflectance is positive, so a draw of zero reflects.
    let cos_theta = 0.8;
    let sin_theta = 0.6;
    let reflectance = schlick(cos_theta, 1.0);
    assert!(reflectance > 0.0);
    assert!(
        Dielectric::reflect_or_refract(s(sin_theta), s(reflectance), s(0.0)) == Bend::Reflect
    );
    // Along the normal it is zero, and no draw is below it.
    assert!(
        Dielectric::reflect_or_refract(s(0.0), s(schlick(1.0, 1.0)), s(0.0)) == Bend::Refract
    );
}

#[test]
fn total_reflection_or_the_draw_reflects() {
    // Total internal reflection decides whatever the draw.
    assert!(Dielectric::reflect_or_refract(s(1.2), s(0.0), s(0.99)) == Bend::Reflect);
    assert!(Dielectric::reflect_or_refract(s(1.2), s(0.5), s(0.0)) == Bend::Reflect);
    // Otherwise the draw decides.
    assert!(Dielectric::reflect_or_refract(s(1.0), s(0.04), s(0.03)) == Bend::Reflect);
    assert!(Dielectric::reflect_or_refract(s(1.0), s(0.04), s(0.04)) == Bend::Refract);
    assert!(Dielectric::reflect_or_refract(s(0.3), s(0.04), s(0.5)) == Bend::Refract);
    assert!(Dielectric::reflect_or_refract(s(f64::NAN), s(0.04), s(0.5)) == Bend::Refract);
}

#[test]
fn material_constructors_build_their_variant() {
    match MaterialType::lambertian(v(0.1, 0.2, 0.3)) {
        MaterialType::Lambertian(l) => assert_eq!(c(&l.albedo), [0.1, 0.2, 0.3]),
        _ => panic!("not a lambertian"),
    }
    match MaterialType::metal(v(0.1, 0.2, 0.3), s(2.0)) {
        MaterialType::Metal(m) => {
            assert_eq!(c(&m.albedo), [0.1, 0.2, 0.3]);
            assert_eq!(f(m.fuzz), 1.0);
        }
        _ => panic!("not a metal"),
    }
    match MaterialType::dielectric(s(1.5)) {
        MaterialType::Dielectric(d) => assert_eq!(f(d.refraction_index), 1.5),
        _ => panic!("not a dielectric"),
    }
}

#[test]
fn unit_samples_are_accepted_inside_the_ball() {
    assert!(Vec3::unit_sample_accepted(s(1.0)));
    assert!(Vec3::unit_sample_accepted(s(0.3)));
    assert!(Vec3::unit_sample_accepted(s(1.1e-160)));
    assert!(!Vec3::unit_sample_accepted(s(1e-160)));
    assert!(!Vec3::unit_sample_accepted(s(0.0)));
    assert!(!Vec3::unit_sample_accepted(s(1.0000001)));
    assert!(!Vec3::unit_sample_accepted(s(3.0)));
    assert!(!Vec3::unit_sample_accepted(s(f64::NAN)));
}

#[test]
fn disk_samples_are_accepted_inside_the_disk() {
    assert!(Vec3::disk_sample_accepted(s(0.0)));
    assert!(Vec3::disk_sample_accepted(s(0.9999)));
    assert!(!Vec3::disk_sample_accepted(s(1.0)));
    assert!(!Vec3::disk_sample_accepted(s(2.0)));
}

#[test]
fn a_hemisphere_sample_is_turned_to_the_normal() {
    let kept = Vec3::random_on_hemisphere(v(0.6, 0.8, 0.0), s(0.8));
    assert_eq!(c(&kept), [0.6, 0.8, 0.0]);
    let turned = Vec3::random_on_hemisphere(v(0.6, -0.8, 0.0), s(-0.8));
    assert_eq!(c(&turned), [-0.6, 0.8, -0.0]);
    let grazing = Vec3::random_on_hemisphere(v(1.0, 0.0, 0.0), s(0.0));
    assert_eq!(c(&grazing), [-1.0, -0.0, -0.0]);
}

#[test]
fn vectors_keep_their_components() {
    let a = v(1.0, -2.0, 3.5);
    assert_eq!(f(a.x()), 1.0);
    assert_eq!(f(a.y()), -2.0);
    assert_eq!(f(a.z()), 3.5);
    assert_eq!(c(&a.neg()), [-1.0, 2.0, -3.5]);
    assert_eq!(c(&a.neg().neg()), [1.0, -2.0, 3.5]);
    assert_eq!(c(&Vec3::default()), [0.0, 0.0, 0.0]);
}
