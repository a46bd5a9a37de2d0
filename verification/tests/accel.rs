use rand::Rng;
use rayimg::bvh::BVHNode;
use rayimg::fixed::{MAX_FIXED, ONE};
use rayimg::materials::{Lambertian, Material};
use rayimg::math::{Ray, Vec3};
use rayimg::rgb::RGB;
use rayimg::scene::Scene;
use rayimg::shapes::{Shape, Sphere};

fn random_scene(count: usize) -> Scene {
    let mut rng = rand::thread_rng();
    let mut scene = Scene::new();
    for _ in 0..count {
        let center = Vec3::new(
            rng.gen_range(-40 * ONE..40 * ONE),
            rng.gen_range(-40 * ONE..40 * ONE),
            rng.gen_range(-80 * ONE..-10 * ONE),
        );
        let radius = rng.gen_range(ONE / 2..4 * ONE);
        let albedo = RGB::new(ONE / 2, ONE / 2, ONE / 2);
        scene.add_object(Shape::Sphere(Sphere::new(
            center,
            radius,
            Material::Lambertian(Lambertian::new(albedo)),
        )));
    }
    scene
}

#[test]
fn bvh_agrees_with_linear_scan() {
    let mut rng = rand::thread_rng();
    let scene = random_scene(60);
    let tree = BVHNode::from_scene(scene.clone());
    for _ in 0..500 {
        let ray = Ray::new(
            Vec3::new(
                rng.gen_range(-10 * ONE..10 * ONE),
                rng.gen_range(-10 * ONE..10 * ONE),
                0,
            ),
            Vec3::new(
                rng.gen_range(-ONE..ONE),
                rng.gen_range(-ONE..ONE),
                rng.gen_range(-2 * ONE..-ONE / 4),
            ),
        );
        let flat = scene.hit(&ray, 66, MAX_FIXED);
        let fast = tree.hit(&ray, 66, MAX_FIXED);
        match (flat, fast) {
            (None, None) => {},
            (Some(a), Some(b)) => assert_eq!(a.t, b.t),
            (a, b) => panic!(
                "the hierarchy disagreed with the scan: {:?} against {:?}",
                a.map(|h| h.t),
                b.map(|h| h.t)
            ),
        }
    }
}

#[test]
fn bvh_over_single_object_matches_it() {
    let mut scene = Scene::new();
    let sphere = Sphere::new(
        Vec3::new(0, 0, -3 * ONE),
        ONE,
        Material::Lambertian(Lambertian::new(RGB::new(ONE, 0, 0))),
    );
    scene.add_object(Shape::Sphere(sphere));
    let tree = BVHNode::from_scene(scene.clone());
    let ray = Ray::new(Vec3::new(0, 0, 0), Vec3::new(0, 0, -ONE));
    let direct = sphere.hit(&ray, 66, MAX_FIXED).expect("the sphere is on the ray");
    let through_tree = tree.hit(&ray, 66, MAX_FIXED).expect("the tree holds the sphere");
    assert_eq!(direct.t, through_tree.t);
    let miss = Ray::new(Vec3::new(0, 0, 0), Vec3::new(0, ONE, 0));
    assert!(tree.hit(&miss, 66, MAX_FIXED).is_none());
}

#[test]
fn bvh_bounding_encloses_the_scene() {
    let scene = random_scene(50);
    let tree = BVHNode::from_scene(scene.clone());
    let outer = tree.bounding();
    // Every object's own box sits inside the root box on every axis.
    for obj in scene.objects.iter() {
        let b = obj.bounding();
        for i in 0..3 {
            assert!(outer.axes[i].min <= b.axes[i].min);
            assert!(outer.axes[i].max >= b.axes[i].max);
        }
    }
}
