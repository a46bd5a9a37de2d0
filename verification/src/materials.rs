use vstd::prelude::*;

use crate::fixed::{
    fadd, fdiv, fmul, fneg, fsqrt, fsub, spec_fabs, spec_fadd, spec_fdiv, spec_fmul, spec_fneg,
    spec_fsqrt, spec_fsub, ONE,
};
use crate::hit::HitRecord;
use crate::math::{Ray, Vec3};
use crate::random::random_in_range;
use crate::rgb::RGB;

verus! {

/// A vector drawn from inside the unit sphere.
pub open spec fn in_unit_sphere(p: Vec3<i64>) -> bool {
    p.spec_sq_mag() < ONE
}

/// A direction obtained by normalizing some nonzero draw from the unit sphere.
pub open spec fn is_unit_sample(u: Vec3<i64>) -> bool {
    exists|s: Vec3<i64>| 0 < s.spec_sq_mag() < ONE && u == s.spec_normalize()
}

/// Every component strictly within one grid step of zero.
pub open spec fn spec_near_zero(v: Vec3<i64>) -> bool {
    spec_fabs(v.x as int) < 1 && spec_fabs(v.y as int) < 1 && spec_fabs(v.z as int) < 1
}

/// A simple diffuse material: rays bounce from the surface in a random
/// direction biased along the normal.
#[derive(Debug, Clone, Copy)]
pub struct Lambertian {
    pub albedo: RGB,
}

/// What a diffuse bounce looks like for a given random unit direction: the
/// normal plus that direction, repaired to the bare normal when the sum is
/// numerically near zero. The attenuation is the albedo.
#[verifier::opaque]
pub open spec fn spec_lambertian_scatter(albedo: RGB, rec: HitRecord, u: Vec3<i64>) -> (Ray, RGB) {
    let dir0 = rec.normal.spec_add(u);
    let dir = if spec_near_zero(dir0) {
        rec.normal
    } else {
        dir0
    };
    (Ray { origin: rec.point, direction: dir }, albedo)
}

impl Lambertian {
    /// Creates new Lambertian material.
    pub fn new(albedo: RGB) -> (r: Self)
        ensures
            r.albedo == albedo,
    {
        Self { albedo }
    }

    /// Always scatters: the bounce of some random unit direction off the hit.
    pub fn scatter(&self, _ray: &Ray, hit_record: &HitRecord) -> (r: Option<(Ray, RGB)>)
        ensures
            r is Some,
            exists|u: Vec3<i64>|
                is_unit_sample(u) && r == Some(spec_lambertian_scatter(self.albedo, *hit_record, u)),
    {
        proof {
            reveal(spec_lambertian_scatter);
        }
        let s = Vec3::random_in_unit_sphere();
        let s = if s.squared_magnitude() > 0 {
            s
        } else {
            Vec3::new(32768, 0, 0)
        };
        proof {
            assert(0 < s.spec_sq_mag() < ONE) by {
                crate::math::lemma_sq_mag_nonneg(s);
            }
        }
        let unit = s.normalize();
        let mut scatter_direction = hit_record.normal().add(&unit);
        if scatter_direction.near_epsilon(1) {
            scatter_direction = hit_record.normal();
        }
        let scattered_ray = Ray::new(hit_record.point(), scatter_direction);
        proof {
            assert(0 < s.spec_sq_mag() < ONE && unit == s.spec_normalize());
            assert(is_unit_sample(unit));
        }
        Some((scattered_ray, self.albedo))
    }
}

/// Material that reflects incident rays, optionally fuzzed.
#[derive(Debug, Clone, Copy)]
pub struct Metal {
    pub albedo: RGB,
    pub fuzziness: i64,
}

/// What a metallic bounce looks like for a given fuzz sample: the normalized
/// incident direction mirrored about the normal and perturbed by the scaled
/// sample; absorbed when the perturbed direction points into the surface.
#[verifier::opaque]
pub open spec fn spec_metal_scatter(m: Metal, ray: Ray, rec: HitRecord, p: Vec3<i64>) -> Option<
    (Ray, RGB),
> {
    let reflected = ray.direction.spec_normalize().spec_reflect(rec.normal);
    let fuzzed = reflected.spec_add(p.spec_scale(m.fuzziness as int));
    if fuzzed.spec_dot(rec.normal) <= 0 {
        None
    } else {
        Some((Ray { origin: rec.point, direction: fuzzed }, m.albedo))
    }
}

impl Metal {
    /// Creates new Metal material; the fuzziness is clamped into `0..=ONE`.
    pub fn new(albedo: RGB, fuzziness: i64) -> (r: Self)
        ensures
            r.albedo == albedo,
            r.fuzziness == if fuzziness < 0 {
                0i64
            } else if fuzziness > ONE {
                ONE
            } else {
                fuzziness
            },
    {
        Self {
            albedo,
            fuzziness: if fuzziness < 0 {
                0
            } else if fuzziness > ONE {
                ONE
            } else {
                fuzziness
            },
        }
    }

    /// The metallic bounce for some fuzz sample from the unit sphere; with a
    /// fuzziness of zero the bounce is the exact mirror reflection.
    pub fn scatter(&self, ray: &Ray, hit_record: &HitRecord) -> (r: Option<(Ray, RGB)>)
        requires
            ray.direction.spec_sq_mag() > 0,
        ensures
            exists|p: Vec3<i64>|
                in_unit_sphere(p) && r == spec_metal_scatter(*self, *ray, *hit_record, p),
            self.fuzziness == 0 ==> r == spec_metal_scatter(
                *self,
                *ray,
                *hit_record,
                Vec3 { x: 0i64, y: 0i64, z: 0i64 },
            ),
    {
        proof {
            reveal(spec_metal_scatter);
        }
        let normal = hit_record.normal();
        let reflected = ray.direction().normalize().reflect(&normal);
        let p = Vec3::random_in_unit_sphere();
        let fuzzed = reflected.add(&p.mul(self.fuzziness));
        proof {
            if self.fuzziness == 0 {
                let o = Vec3 { x: 0i64, y: 0i64, z: 0i64 };
                assert(p.spec_scale(0) == o.spec_scale(0));
            }
        }
        let r = if fuzzed.dot(&normal) <= 0 {
            None
        } else {
            Some((Ray::new(hit_record.point(), fuzzed), self.albedo))
        };
        proof {
            assert(in_unit_sphere(p) && r == spec_metal_scatter(*self, *ray, *hit_record, p));
        }
        r
    }
}

/// A clear material that refracts where it can and reflects otherwise,
/// choosing stochastically by the Schlick reflectance.
#[derive(Debug, Clone, Copy)]
pub struct Dielectric {
    pub albedo: RGB,
    pub refraction_index: i64,
}

/// Schlick's polynomial approximation of the Fresnel reflectance.
pub open spec fn spec_reflectance(cosine: int, refraction_index: int) -> int {
    let r0 = spec_fdiv(
        spec_fsub(ONE as int, refraction_index),
        spec_fadd(ONE as int, refraction_index),
    );
    let r0sq = spec_fmul(r0, r0);
    let c1 = spec_fsub(ONE as int, cosine);
    let p5 = spec_fmul(spec_fmul(spec_fmul(spec_fmul(c1, c1), c1), c1), c1);
    spec_fadd(r0sq, spec_fmul(spec_fsub(ONE as int, r0sq), p5))
}

/// What a dielectric bounce looks like for a given uniform draw `q`: total
/// internal reflection or a Schlick draw below `q` reflects, anything else
/// refracts by the ratio of indices for the struck side.
#[verifier::opaque]
pub open spec fn spec_dielectric_scatter(d: Dielectric, ray: Ray, rec: HitRecord, q: int) -> (
    Ray,
    RGB,
) {
    let unit = ray.direction.spec_normalize();
    let ratio = if rec.front_face {
        spec_fdiv(ONE as int, d.refraction_index as int)
    } else {
        d.refraction_index as int
    };
    let cos = spec_fneg(unit.spec_dot(rec.normal));
    let s2 = spec_fsub(ONE as int, spec_fmul(cos, cos));
    let sin = spec_fsqrt(if s2 < 0 { 0 } else { s2 });
    let cannot_refract = spec_fmul(ratio, sin) > ONE;
    let dir = if cannot_refract || spec_reflectance(cos, ratio) > q {
        unit.spec_reflect(rec.normal)
    } else {
        unit.spec_refract(rec.normal, ratio)
    };
    (Ray { origin: rec.point, direction: dir }, d.albedo)
}

impl Dielectric {
    /// Creates a new Dielectric material with the given attenuation and
    /// positive index of refraction.
    pub fn new(albedo: RGB, refraction_index: i64) -> (r: Self)
        requires
            refraction_index > 0,
        ensures
            r.albedo == albedo,
            r.refraction_index == refraction_index,
    {
        Self { albedo, refraction_index }
    }

    /// Schlick's reflectance approximation.
    pub fn reflectance(cosine: i64, refraction_index: i64) -> (r: i64)
        requires
            refraction_index >= 0,
        ensures
            r == spec_reflectance(cosine as int, refraction_index as int),
    {
        let r0 = fdiv(fsub(ONE, refraction_index), fadd(ONE, refraction_index));
        let r0sq = fmul(r0, r0);
        let c1 = fsub(ONE, cosine);
        let p5 = fmul(fmul(fmul(fmul(c1, c1), c1), c1), c1);
        fadd(r0sq, fmul(fsub(ONE, r0sq), p5))
    }

    /// Always scatters: the bounce of some uniform draw off the hit.
    pub fn scatter(&self, ray: &Ray, hit_record: &HitRecord) -> (r: Option<(Ray, RGB)>)
        requires
            ray.direction.spec_sq_mag() > 0,
            self.refraction_index > 0,
        ensures
            r is Some,
            exists|q: int|
                0 <= q < ONE && r == Some(spec_dielectric_scatter(*self, *ray, *hit_record, q)),
    {
        proof {
            reveal(spec_dielectric_scatter);
        }
        let unit = ray.direction().normalize();
        let ratio = if hit_record.front_face() {
            fdiv(ONE, self.refraction_index)
        } else {
            self.refraction_index
        };
        let cos = fneg(unit.dot(&hit_record.normal()));
        let s2 = fsub(ONE, fmul(cos, cos));
        let sin = fsqrt(if s2 < 0 {
            0
        } else {
            s2
        });
        let cannot_refract = fmul(ratio, sin) > ONE;
        let draw = random_in_range(0, ONE);
        let direction = if cannot_refract || Dielectric::reflectance(cos, ratio) > draw {
            unit.reflect(&hit_record.normal())
        } else {
            unit.refract(&hit_record.normal(), ratio)
        };
        let r = Some((Ray::new(hit_record.point(), direction), self.albedo));
        proof {
            assert(0 <= draw < ONE && r == Some(
                spec_dielectric_scatter(*self, *ray, *hit_record, draw as int),
            ));
        }
        r
    }
}

/// The closed set of materials, dispatched by matching.
#[derive(Debug, Clone, Copy)]
pub enum Material {
    Lambertian(Lambertian),
    Metal(Metal),
    Dielectric(Dielectric),
}

/// The internal soundness of a material's parameters.
pub open spec fn material_wf(m: Material) -> bool {
    match m {
        Material::Lambertian(_) => true,
        Material::Metal(mm) => 0 <= mm.fuzziness <= ONE,
        Material::Dielectric(d) => d.refraction_index > 0,
    }
}

/// One outcome a material may scatter to, given the random draws it makes.
pub open spec fn scatter_possible(
    m: Material,
    ray: Ray,
    rec: HitRecord,
    out: Option<(Ray, RGB)>,
) -> bool {
    match m {
        Material::Lambertian(l) => exists|u: Vec3<i64>|
            is_unit_sample(u) && out == Some(spec_lambertian_scatter(l.albedo, rec, u)),
        Material::Metal(mm) => exists|p: Vec3<i64>|
            in_unit_sphere(p) && out == spec_metal_scatter(mm, ray, rec, p),
        Material::Dielectric(d) => exists|q: int|
            0 <= q < ONE && out == Some(spec_dielectric_scatter(d, ray, rec, q)),
    }
}

impl Material {
    /// Decides whether and how light scatters at the hit: a new ray and an
    /// attenuation, or nothing when the bounce is absorbed.
    pub fn scatter(&self, ray: &Ray, hit_record: &HitRecord) -> (r: Option<(Ray, RGB)>)
        requires
            ray.direction.spec_sq_mag() > 0,
            material_wf(*self),
        ensures
            scatter_possible(*self, *ray, *hit_record, r),
    {
        match self {
            Material::Lambertian(l) => l.scatter(ray, hit_record),
            Material::Metal(m) => m.scatter(ray, hit_record),
            Material::Dielectric(d) => d.scatter(ray, hit_record),
        }
    }
}

} // verus!
