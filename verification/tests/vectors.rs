use rayimg::fixed::ONE;
use rayimg::math::{Ray, Vec3};

#[test]
fn vector_components_and_dot() {
    let v = Vec3::new(ONE, 3 * ONE, -2 * ONE);
    assert!(v.x == ONE && v.y == 3 * ONE && v.z == -2 * ONE);
    assert_eq!(v.squared_magnitude(), 14 * ONE);
    let a = Vec3::new(0, ONE, 2 * ONE);
    let b = Vec3::new(3 * ONE, -4 * ONE, 5 * ONE);
    assert_eq!(a.dot(&b), 6 * ONE);
    assert_eq!(b.dot(&a), 6 * ONE);
    assert_eq!(a.dot(&a), a.squared_magnitude());
}

#[test]
fn vector_length_and_normalize() {
    let v = Vec3::new(ONE, 3 * ONE, -2 * ONE);
    assert_eq!(v.len(), 245213);
    let u = Vec3::new(ONE, 2 * ONE, 3 * ONE).normalize();
    assert_eq!(u, Vec3::new(17515, 35030, 52545));
    let axis = Vec3::new(0, 0, -5 * ONE).normalize();
    assert_eq!(axis, Vec3::new(0, 0, -ONE));
}

#[test]
fn reflect_about_axis_normal() {
    let v = Vec3::new(ONE, -2 * ONE, 0);
    let n = Vec3::new(0, ONE, 0);
    assert_eq!(v.reflect(&n), Vec3::new(ONE, 2 * ONE, 0));
    let w = Vec3::new(3 * ONE, -2 * ONE, ONE);
    let m = Vec3::new(0, 0, ONE);
    let r = w.reflect(&m);
    assert_eq!(r, Vec3::new(3 * ONE, -2 * ONE, -ONE));
    assert_eq!(r.squared_magnitude(), w.squared_magnitude());
    assert_eq!(r.dot(&m), -w.dot(&m));
}

#[test]
fn near_epsilon_checks_all_components() {
    let v = Vec3::new(0i64, 0, 0);
    assert!(v.near_epsilon(1));
    let w = Vec3::new(1i64, 0, 0);
    assert!(!w.near_epsilon(1));
    assert!(w.near_epsilon(2));
}

#[test]
fn cross_product_of_axes() {
    let x = Vec3::new(ONE, 0, 0);
    let y = Vec3::new(0, ONE, 0);
    assert_eq!(x.cross(&y), Vec3::new(0, 0, ONE));
    assert_eq!(y.cross(&x), Vec3::new(0, 0, -ONE));
}

#[test]
fn ray_trace_walks_the_direction() {
    let ray = Ray::new(Vec3::new(ONE, 2 * ONE, 3 * ONE), Vec3::new(2 * ONE, -3 * ONE, -ONE));
    assert_eq!(ray.origin(), Vec3::new(ONE, 2 * ONE, 3 * ONE));
    assert_eq!(ray.direction(), Vec3::new(2 * ONE, -3 * ONE, -ONE));
    assert_eq!(ray.trace(3 * ONE), Vec3::new(7 * ONE, -7 * ONE, 0));
}

#[test]
fn random_vectors_vary_and_stay_in_range() {
    let mut seen_distinct = false;
    let first = Vec3::random();
    for _ in 0..1000 {
        let v = Vec3::random();
        assert!(-ONE <= v.x && v.x <= ONE);
        assert!(-ONE <= v.y && v.y <= ONE);
        assert!(-ONE <= v.z && v.z <= ONE);
        if v != first {
            seen_distinct = true;
        }
    }
    assert!(seen_distinct);
}

#[test]
fn refract_at_normal_incidence_passes_straight() {
    let v = Vec3::new(0, 0, -ONE);
    let n = Vec3::new(0, 0, ONE);
    assert_eq!(v.refract(&n, ONE), Vec3::new(0, 0, -ONE));
}

#[test]
fn random_in_range_respects_its_bounds() {
    for _ in 0..1000 {
        let draw = rayimg::random::random_in_range(-5, 7);
        assert!(-5 <= draw && draw < 7);
    }
}
