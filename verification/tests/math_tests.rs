use raytracer::fixed::{Fixed, SCALE};
use raytracer::math::{random_f64, reflect, Vec3};
use raytracer::ray::Ray;

fn fx(x: f64) -> Fixed {
    Fixed::from_raw((x * 1e12).round() as i64)
}

fn v3(x: f64, y: f64, z: f64) -> Vec3 {
    Vec3::new(fx(x), fx(y), fx(z))
}

#[test]
fn new_keeps_the_components() {
    let v = Vec3::new(fx(1.0), fx(-2.0), fx(0.5));
    assert_eq!(v.x, fx(1.0));
    assert_eq!(v.y, fx(-2.0));
    assert_eq!(v.z, fx(0.5));
}

#[test]
fn add_sub_neg() {
    assert_eq!(v3(1.0, 2.0, 3.0).add(v3(0.5, -2.0, 1.0)), v3(1.5, 0.0, 4.0));
    assert_eq!(v3(1.0, 2.0, 3.0).sub(v3(0.5, -2.0, 1.0)), v3(0.5, 4.0, 2.0));
    assert_eq!(v3(1.0, -2.0, 0.0).neg(), v3(-1.0, 2.0, 0.0));
}

#[test]
fn scale_mul_div() {
    assert_eq!(v3(1.0, -2.0, 0.5).scale(fx(2.0)), v3(2.0, -4.0, 1.0));
    assert_eq!(v3(1.0, 0.5, 0.25).mul(v3(0.5, 0.5, 4.0)), v3(0.5, 0.25, 1.0));
    assert_eq!(v3(1.0, -2.0, 0.5).div(fx(2.0)), v3(0.5, -1.0, 0.25));
}

#[test]
fn dot_product() {
    assert_eq!(Vec3::dot(v3(1.0, 2.0, 3.0), v3(4.0, -5.0, 6.0)), fx(12.0));
    assert_eq!(Vec3::dot(v3(1.0, 0.0, 0.0), v3(0.0, 1.0, 0.0)), fx(0.0));
}

#[test]
fn cross_product_is_right_handed() {
    assert_eq!(Vec3::cross(v3(1.0, 0.0, 0.0), v3(0.0, 1.0, 0.0)), v3(0.0, 0.0, 1.0));
    assert_eq!(Vec3::cross(v3(0.0, 1.0, 0.0), v3(0.0, 0.0, 1.0)), v3(1.0, 0.0, 0.0));
    assert_eq!(Vec3::cross(v3(0.0, 0.0, 1.0), v3(1.0, 0.0, 0.0)), v3(0.0, 1.0, 0.0));
    assert_eq!(Vec3::cross(v3(2.0, 3.0, 4.0), v3(2.0, 3.0, 4.0)), v3(0.0, 0.0, 0.0));
}

#[test]
fn length_and_length_squared() {
    assert_eq!(v3(3.0, 4.0, 0.0).length(), fx(5.0));
    assert_eq!(v3(3.0, 4.0, 0.0).length_squared(), fx(25.0));
    assert_eq!(v3(0.0, 0.0, 0.0).length(), fx(0.0));
}

#[test]
fn length_of_a_far_point_does_not_saturate_early() {
    assert_eq!(v3(300_000.0, 400_000.0, 0.0).length(), fx(500_000.0));
}

#[test]
fn unit_has_length_one() {
    assert_eq!(v3(3.0, 4.0, 0.0).unit(), v3(0.6, 0.8, 0.0));
    assert_eq!(v3(0.0, -7.0, 0.0).unit(), v3(0.0, -1.0, 0.0));
}

#[test]
fn unit_of_the_zero_vector_is_the_zero_vector() {
    assert_eq!(v3(0.0, 0.0, 0.0).unit(), v3(0.0, 0.0, 0.0));
}

#[test]
fn reflect_mirrors_about_the_normal() {
    assert_eq!(reflect(v3(1.0, -1.0, 0.0), v3(0.0, 1.0, 0.0)), v3(1.0, 1.0, 0.0));
    assert_eq!(reflect(v3(0.0, -1.0, 0.0), v3(0.0, 1.0, 0.0)), v3(0.0, 1.0, 0.0));
}

#[test]
fn ray_at_walks_along_the_direction() {
    let r = Ray::new(v3(1.0, 2.0, 3.0), v3(0.0, 0.0, -2.0));
    assert_eq!(r.origin, v3(1.0, 2.0, 3.0));
    assert_eq!(r.direction, v3(0.0, 0.0, -2.0));
    assert_eq!(r.at(fx(0.0)), v3(1.0, 2.0, 3.0));
    assert_eq!(r.at(fx(1.5)), v3(1.0, 2.0, 0.0));
    assert_eq!(r.at(fx(-1.0)), v3(1.0, 2.0, 5.0));
}

#[test]
fn random_draws_lie_in_the_unit_interval() {
    let mut least = SCALE;
    let mut most = -1;
    for _ in 0..1000 {
        let raw = random_f64().raw();
        assert!(0 <= raw && raw < SCALE);
        least = least.min(raw);
        most = most.max(raw);
    }
    assert!(least < most);
}

#[test]
fn default_vector_is_zero() {
    assert_eq!(Vec3::default(), v3(0.0, 0.0, 0.0));
}
