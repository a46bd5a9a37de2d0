use rayimg::fixed::{MAX_FIXED, ONE};
use rayimg::materials::{Dielectric, Lambertian, Material, Metal};
use rayimg::math::{Ray, Vec3};
use rayimg::rgb::RGB;
use rayimg::shapes::Sphere;

#[test]
fn metal_with_no_fuzz_reflects_exactly() {
    let metal = Metal::new(RGB::new(ONE, ONE, ONE), 0);
    let ray = Ray::new(Vec3::new(0, 0, ONE), Vec3::new(0, 0, -ONE));
    let mut rec = rayimg::hit::HitRecord::new(
        ONE,
        Vec3::new(0, 0, 0),
        Material::Metal(metal),
    );
    rec.set_face_normal(&ray, Vec3::new(0, 0, ONE));
    let (scattered, attenuation) = metal.scatter(&ray, &rec).expect("a frontal ray must bounce");
    assert_eq!(scattered.direction(), Vec3::new(0, 0, ONE));
    assert_eq!(scattered.origin(), Vec3::new(0, 0, 0));
    assert_eq!(attenuation, RGB::new(ONE, ONE, ONE));
}

#[test]
fn metal_absorbs_grazing_bounces() {
    let metal = Metal::new(RGB::new(ONE, ONE, ONE), 0);
    // A record whose stored normal points along the incoming ray sends the
    // exact reflection into the surface, which is absorbed.
    let upward = Ray::new(Vec3::new(0, 0, -ONE), Vec3::new(0, 0, ONE));
    let mut rec = rayimg::hit::HitRecord::new(ONE, Vec3::new(0, 0, 0), Material::Metal(metal));
    rec.set_face_normal(&upward, Vec3::new(0, 0, -ONE));
    assert_eq!(rec.normal(), Vec3::new(0, 0, -ONE));
    let downward = Ray::new(Vec3::new(0, 0, ONE), Vec3::new(0, 0, -ONE));
    assert!(metal.scatter(&downward, &rec).is_none());
}

#[test]
fn metal_clamps_fuzziness() {
    assert_eq!(Metal::new(RGB::new(0, 0, 0), 3 * ONE).fuzziness, ONE);
    assert_eq!(Metal::new(RGB::new(0, 0, 0), -ONE).fuzziness, 0);
    assert_eq!(Metal::new(RGB::new(0, 0, 0), ONE / 4).fuzziness, ONE / 4);
}

#[test]
fn lambertian_always_scatters() {
    let mat = Lambertian::new(RGB::new(ONE / 2, 0, 0));
    let ray = Ray::new(Vec3::new(0, 0, ONE), Vec3::new(0, 0, -ONE));
    for _ in 0..100 {
        let mut rec = rayimg::hit::HitRecord::new(
            ONE,
            Vec3::new(0, 0, 0),
            Material::Lambertian(mat),
        );
        rec.set_face_normal(&ray, Vec3::new(0, 0, ONE));
        let (scattered, attenuation) = mat.scatter(&ray, &rec).expect("diffuse always bounces");
        assert_eq!(attenuation, RGB::new(ONE / 2, 0, 0));
        assert_eq!(scattered.origin(), Vec3::new(0, 0, 0));
        // The bounce leans along the normal: never straight into the surface.
        assert!(scattered.direction().z > -2 * ONE);
    }
}

#[test]
fn dielectric_always_scatters() {
    let glass = Dielectric::new(RGB::new(ONE, ONE, ONE), 98304);
    let sphere = Sphere::new(Vec3::new(0, 0, -3 * ONE), ONE, Material::Dielectric(glass));
    let ray = Ray::new(Vec3::new(0, 0, 0), Vec3::new(0, 0, -ONE));
    for _ in 0..100 {
        let rec = sphere.hit(&ray, 66, MAX_FIXED).expect("the glass ball sits on the ray");
        let (scattered, attenuation) = glass.scatter(&ray, &rec).expect("glass always bounces");
        assert_eq!(attenuation, RGB::new(ONE, ONE, ONE));
        assert_eq!(scattered.origin(), rec.point());
    }
}

#[test]
fn material_dispatch_matches_variants() {
    let ray = Ray::new(Vec3::new(0, 0, ONE), Vec3::new(0, 0, -ONE));
    let metal = Material::Metal(Metal::new(RGB::new(ONE, 0, 0), 0));
    let mut rec = rayimg::hit::HitRecord::new(ONE, Vec3::new(0, 0, 0), metal);
    rec.set_face_normal(&ray, Vec3::new(0, 0, ONE));
    let (scattered, attenuation) = rec.material().scatter(&ray, &rec).expect("frontal bounce");
    assert_eq!(scattered.direction(), Vec3::new(0, 0, ONE));
    assert_eq!(attenuation, RGB::new(ONE, 0, 0));
}
