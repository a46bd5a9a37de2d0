//! An offline path tracer over exact fixed-point arithmetic: scenes of
//! spheres and triangles with diffuse, metallic and dielectric materials,
//! accelerated by a bounding-volume hierarchy, sampled through a thin-lens
//! camera, and written out as a plain-text image.

pub mod bound;
pub mod bvh;
pub mod camera;
pub mod fixed;
pub mod hit;
pub mod image_write;
pub mod materials;
pub mod math;
pub mod renderer;
pub mod rgb;
pub mod scene;
pub mod shapes;
pub mod random;

pub use bound::{Interval, AABB};
pub use bvh::BVHNode;
pub use camera::Camera;
pub use hit::HitRecord;
pub use image_write::{ImageWrite, P3ImageWriter, Pixels};
pub use renderer::Renderer;
pub use rgb::RGB;
pub use scene::Scene;
