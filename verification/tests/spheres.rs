use rayimg::fixed::{MAX_FIXED, ONE};
use rayimg::hit::HitRecord;
use rayimg::materials::{Lambertian, Material};
use rayimg::math::{Ray, Vec3};
use rayimg::scene::Scene;
use rayimg::shapes::{Shape, Sphere, Triangle};

fn gray() -> Material {
    Material::Lambertian(Lambertian::new(rayimg::rgb::RGB::new(ONE / 2, ONE / 2, ONE / 2)))
}

#[test]
fn sphere_fields() {
    let s = Sphere::new(Vec3::new(4 * ONE, -3 * ONE, ONE), ONE, gray());
    assert_eq!(s.center(), Vec3::new(4 * ONE, -3 * ONE, ONE));
    assert_eq!(s.radius(), ONE);
}

#[test]
fn ray_at_center_selects_nearer_root() {
    let s = Sphere::new(Vec3::new(0, 0, -3 * ONE), ONE, gray());
    let ray = Ray::new(Vec3::new(0, 0, 0), Vec3::new(0, 0, -ONE));
    let hit = s.hit(&ray, 66, MAX_FIXED).expect("a ray at the center must hit");
    assert_eq!(hit.t, 2 * ONE);
    assert_eq!(hit.point, Vec3::new(0, 0, -2 * ONE));
    assert!(hit.front_face);
    assert_eq!(hit.normal, Vec3::new(0, 0, ONE));
    let farther_window = s.hit(&ray, 3 * ONE, MAX_FIXED).expect("the far root is in range");
    assert_eq!(farther_window.t, 4 * ONE);
}

#[test]
fn negative_discriminant_misses() {
    let s = Sphere::new(Vec3::new(0, 0, -3 * ONE), ONE, gray());
    let sideways = Ray::new(Vec3::new(0, 0, 0), Vec3::new(0, ONE, 0));
    assert!(s.hit(&sideways, 66, MAX_FIXED).is_none());
    let out_of_window = Ray::new(Vec3::new(0, 0, 0), Vec3::new(0, 0, -ONE));
    assert!(s.hit(&out_of_window, 66, ONE).is_none());
}

#[test]
fn scene_counts_objects() {
    let mut scene = Scene::new();
    assert_eq!(scene.object_count(), 0);
    let unit = Shape::Sphere(Sphere::new(Vec3::new(0, 0, 0), ONE, gray()));
    scene.add_object(unit);
    scene.add_object(unit);
    scene.add_object(unit);
    assert_eq!(scene.object_count(), 3);
}

#[test]
fn scene_returns_the_closest_hit() {
    let mut scene = Scene::new();
    scene.add_object(Shape::Sphere(Sphere::new(Vec3::new(0, 0, -9 * ONE), ONE, gray())));
    scene.add_object(Shape::Sphere(Sphere::new(Vec3::new(0, 0, -3 * ONE), ONE, gray())));
    scene.add_object(Shape::Sphere(Sphere::new(Vec3::new(0, 0, -6 * ONE), ONE, gray())));
    let ray = Ray::new(Vec3::new(0, 0, 0), Vec3::new(0, 0, -ONE));
    let hit = scene.hit(&ray, 66, MAX_FIXED).expect("three spheres sit on the ray");
    assert_eq!(hit.t, 2 * ONE);
    let empty = Scene::new();
    assert!(empty.hit(&ray, 66, MAX_FIXED).is_none());
}

#[test]
fn face_normal_opposes_the_ray() {
    let mut rec = HitRecord::new(ONE, Vec3::new(0, 0, -ONE), gray());
    let ray = Ray::new(Vec3::new(0, 0, 0), Vec3::new(0, 0, ONE));
    rec.set_face_normal(&ray, Vec3::new(0, 0, -ONE));
    assert_eq!(rec.normal(), Vec3::new(0, 0, -ONE));
    assert!(rec.front_face());
    let mut back = HitRecord::new(ONE, Vec3::new(0, 0, -ONE), gray());
    back.set_face_normal(&ray, Vec3::new(0, 0, ONE));
    assert_eq!(back.normal(), Vec3::new(0, 0, -ONE));
    assert!(!back.front_face());
}

#[test]
fn triangle_hit_inside_and_missed_outside() {
    let tri = Triangle::new(
        [
            Vec3::new(-ONE, -ONE, -2 * ONE),
            Vec3::new(ONE, -ONE, -2 * ONE),
            Vec3::new(0, ONE, -2 * ONE),
        ],
        gray(),
    );
    let center = Ray::new(Vec3::new(0, 0, 0), Vec3::new(0, 0, -ONE));
    let hit = tri.hit(&center, 66, MAX_FIXED).expect("a ray through the middle hits");
    assert_eq!(hit.t, 2 * ONE);
    let outside = Ray::new(Vec3::new(5 * ONE, 0, 0), Vec3::new(0, 0, -ONE));
    assert!(tri.hit(&outside, 66, MAX_FIXED).is_none());
    let parallel = Ray::new(Vec3::new(0, 0, 0), Vec3::new(ONE, 0, 0));
    assert!(tri.hit(&parallel, 66, MAX_FIXED).is_none());
}
