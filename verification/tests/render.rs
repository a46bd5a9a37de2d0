use rayimg::camera::{Camera, HALF};
use rayimg::fixed::ONE;
use rayimg::image_write::{ImageWrite, P3ImageWriter, Pixels};
use rayimg::materials::{Dielectric, Lambertian, Material, Metal};
use rayimg::math::Vec3;
use rayimg::renderer::{Background, Renderer};
use rayimg::rgb::RGB;
use rayimg::scene::Scene;
use rayimg::shapes::{Shape, Sphere, Triangle};

#[test]
fn default_camera_center_ray_points_down_the_axis() {
    let camera = Camera::default();
    let ray = camera.ray_to_viewport(&(HALF, HALF));
    assert_eq!(ray.origin(), Vec3::new(0, 0, 0));
    assert_eq!(ray.direction(), Vec3::new(0, 0, -ONE));
    assert!(ray.direction().x == 0 && ray.direction().y == 0 && ray.direction().z < 0);
}

#[test]
fn camera_builder_keeps_its_parameters() {
    let builder = Camera::new()
        .position(Vec3::new(ONE, 0, 0))
        .target(Vec3::new(ONE, 0, -ONE))
        .up(Vec3::new(0, ONE, 0))
        .vertical_fov(60 * ONE)
        .aspect_ratio(2 * ONE)
        .defocus_angle(0)
        .focus_distance(2 * ONE);
    assert_eq!(builder.position, Vec3::new(ONE, 0, 0));
    assert_eq!(builder.vertical_fov, 60 * ONE);
    let camera = builder.build();
    assert_eq!(camera.position, Vec3::new(ONE, 0, 0));
    let ray = camera.ray_to_viewport(&(HALF, HALF));
    assert_eq!(ray.direction(), Vec3::new(0, 0, -2 * ONE));
}

#[test]
fn empty_scene_with_yellow_background_quantizes_to_yellow() {
    let renderer = Renderer::new(Scene::new(), Camera::default())
        .sample_count(1)
        .ray_miss(Background::Constant(RGB::new(ONE, ONE, 0)))
        .build();
    let buf = renderer.render_buffer(2, 1);
    assert_eq!(buf.len(), 2);
    for pixel in buf.iter() {
        assert_eq!(pixel.as_bytes(), [255, 255, 0]);
    }
}

#[test]
fn constant_background_survives_any_sample_count() {
    for samples in [1usize, 2, 3, 7, 32] {
        let renderer = Renderer::new(Scene::new(), Camera::default())
            .sample_count(samples)
            .ray_miss(Background::Constant(RGB::new(16384, 41943, 655)))
            .build();
        let buf = renderer.render_buffer(3, 2);
        assert_eq!(buf.len(), 6);
        for pixel in buf.iter() {
            assert_eq!(*pixel, RGB::new(32768, 52428, 6551));
        }
    }
}

#[test]
fn p3_writer_emits_header_and_lines() {
    let mut writer = P3ImageWriter::new((640, 480), Vec::new());
    assert_eq!(writer.bounds(), (640, 480));
    writer.write_all(&[RGB::new(0, ONE / 2, ONE)]);
    assert_eq!(
        String::from_utf8(writer.sink.clone()).unwrap(),
        String::from("P3\n640 480\n255\n0 128 255\n"),
    );
}

#[test]
fn two_pixel_image_writes_yellow_lines() {
    let renderer = Renderer::new(Scene::new(), Camera::default())
        .sample_count(1)
        .ray_miss(Background::Constant(RGB::new(ONE, ONE, 0)))
        .build();
    let mut writer = P3ImageWriter::new((2, 1), Vec::new());
    renderer.render(&mut writer);
    assert_eq!(
        String::from_utf8(writer.sink.clone()).unwrap(),
        String::from("P3\n2 1\n255\n255 255 0\n255 255 0\n"),
    );
}

#[test]
fn black_image_from_default_background() {
    let renderer = Renderer::new(Scene::new(), Camera::default()).sample_count(2).build();
    let buf = renderer.render_buffer(4, 3);
    assert_eq!(buf.len(), 12);
    for pixel in buf.iter() {
        assert_eq!(pixel.as_bytes(), [0, 0, 0]);
    }
}

fn sky() -> Background {
    Background::Gradient {
        low: RGB::new(ONE, ONE, ONE),
        high: RGB::new(ONE / 2, 45875, ONE),
    }
}

#[test]
fn sky_image_shades_between_the_gradient_colors() {
    let renderer = Renderer::new(Scene::new(), Camera::default())
        .sample_count(2)
        .ray_depth(4)
        .ray_miss(sky())
        .build();
    let buf = renderer.render_buffer(8, 5);
    assert_eq!(buf.len(), 40);
    for pixel in buf.iter() {
        let bytes = pixel.as_bytes();
        assert!(bytes[2] >= bytes[0]);
    }
}

#[test]
fn spheres_on_sky_render_within_range() {
    let mut scene = Scene::new();
    scene.add_object(Shape::Sphere(Sphere::new(
        Vec3::new(0, 0, -ONE),
        ONE / 2,
        Material::Lambertian(Lambertian::new(RGB::new(0, ONE, ONE))),
    )));
    scene.add_object(Shape::Sphere(Sphere::new(
        Vec3::new(0, -100 * ONE - ONE / 2, -ONE),
        100 * ONE,
        Material::Lambertian(Lambertian::new(RGB::new(52428, 52428, 0))),
    )));
    let renderer = Renderer::new(scene, Camera::default())
        .sample_count(2)
        .ray_depth(6)
        .ray_miss(sky())
        .build();
    let buf = renderer.render_buffer(12, 7);
    assert_eq!(buf.len(), 84);
}

#[test]
fn glass_metal_and_triangle_render() {
    let mut scene = Scene::new();
    scene.add_object(Shape::Sphere(Sphere::new(
        Vec3::new(0, 0, -ONE),
        ONE / 2,
        Material::Dielectric(Dielectric::new(RGB::new(ONE, ONE, ONE), 98304)),
    )));
    scene.add_object(Shape::Sphere(Sphere::new(
        Vec3::new(0, 0, -ONE),
        -32113,
        Material::Dielectric(Dielectric::new(RGB::new(ONE, ONE, ONE), 98304)),
    )));
    scene.add_object(Shape::Sphere(Sphere::new(
        Vec3::new(ONE, 0, -2 * ONE),
        ONE / 2,
        Material::Metal(Metal::new(RGB::new(ONE, ONE, ONE), ONE / 8)),
    )));
    scene.add_object(Shape::Triangle(Triangle::new(
        [
            Vec3::new(-ONE, 0, -2 * ONE),
            Vec3::new(ONE, 0, -2 * ONE),
            Vec3::new(0, ONE + ONE / 2, -2 * ONE),
        ],
        Material::Lambertian(Lambertian::new(RGB::new(ONE, 0, 0))),
    )));
    scene.add_object(Shape::Sphere(Sphere::new(
        Vec3::new(0, -100 * ONE - ONE / 2, -ONE),
        100 * ONE,
        Material::Lambertian(Lambertian::new(RGB::new(52428, 52428, 0))),
    )));
    let renderer = Renderer::new(scene, Camera::default())
        .sample_count(2)
        .ray_depth(5)
        .ray_miss(sky())
        .build();
    let mut writer = P3ImageWriter::new((10, 6), Vec::new());
    renderer.render(&mut writer);
    let text = String::from_utf8(writer.sink.clone()).unwrap();
    assert!(text.starts_with("P3\n10 6\n255\n"));
    assert_eq!(text.lines().count(), 3 + 60);
}

#[test]
fn mean_brightness_stabilizes_with_more_samples() {
    let mut scene = Scene::new();
    scene.add_object(Shape::Sphere(Sphere::new(
        Vec3::new(0, 0, -2 * ONE),
        ONE,
        Material::Lambertian(Lambertian::new(RGB::new(ONE / 2, ONE / 2, ONE / 2))),
    )));
    let mean_of = |samples: usize| -> i64 {
        let renderer = Renderer::new(scene.clone(), Camera::default())
            .sample_count(samples)
            .ray_depth(8)
            .ray_miss(Background::Constant(RGB::new(ONE, ONE, ONE)))
            .build();
        let buf = renderer.render_buffer(8, 8);
        let mut total: i64 = 0;
        for pixel in buf.iter() {
            total += pixel.r();
        }
        total / (buf.len() as i64)
    };
    let rough = mean_of(1);
    let smooth = mean_of(120);
    let difference = (rough - smooth).abs();
    assert!(
        difference < ONE / 8,
        "means diverged: {} against {} (difference {})",
        rough,
        smooth,
        difference,
    );
}

#[test]
fn pixels_walk_row_major_from_the_top() {
    let mut pixels = Pixels::new((2, 2));
    assert_eq!(pixels.next(), Some((0, 0)));
    assert_eq!(pixels.next(), Some((1, 0)));
    assert_eq!(pixels.next(), Some((0, 1)));
    assert_eq!(pixels.next(), Some((1, 1)));
    assert_eq!(pixels.next(), None);
    assert_eq!(pixels.next(), None);
}

#[test]
fn red_sphere_on_white_background() {
    let mut scene = Scene::new();
    scene.add_object(Shape::Sphere(Sphere::new(
        Vec3::new(0, 0, -ONE),
        ONE / 2,
        Material::Lambertian(Lambertian::new(RGB::new(ONE, 0, 0))),
    )));
    let renderer = Renderer::new(scene, Camera::default())
        .sample_count(2)
        .ray_depth(6)
        .ray_miss(Background::Constant(RGB::new(ONE, ONE, ONE)))
        .build();
    let buf = renderer.render_buffer(9, 5);
    assert_eq!(buf.len(), 45);
    // The pixel in the middle looks straight at the sphere: the red channel
    // dominates there, while a corner pixel sees plain background.
    let center = buf[2 * 9 + 4];
    assert!(center.r() >= center.g() && center.r() >= center.b());
    assert_eq!(buf[0].as_bytes(), [255, 255, 255]);
}
