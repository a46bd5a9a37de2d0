mod ray;
mod vec3;

pub use ray::Ray;
pub use vec3::{axis_unit, dot_exact, lemma_reflect_axis_normal, lemma_reflect_exact,
    lemma_sq_mag_nonneg, reflect_exact, Vec3};
