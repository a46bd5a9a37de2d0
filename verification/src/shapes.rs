use vstd::prelude::*;

use crate::bound::{spec_box_of_corners, AABB};
use crate::fixed::{
    fadd, fdiv, fmul, fneg, fsqrt, fsub, lemma_fdiv_ordered, spec_fadd, spec_fdiv, spec_fmul,
    spec_fneg, spec_fsqrt, spec_fsub, ONE,
};
use crate::hit::HitRecord;
use crate::materials::{material_wf, Material};
use crate::math::{Ray, Vec3};

verus! {

/// Geometric shape, the set of points at distance `radius` from `center`.
/// A negative radius flips the reported normals inward, which models a
/// hollow boundary such as the inner wall of a glass shell.
#[derive(Debug, Clone, Copy)]
pub struct Sphere {
    pub center: Vec3<i64>,
    pub radius: i64,
    pub radius_squared: i64,
    pub material: Material,
}

impl Sphere {
    pub open spec fn wf(self) -> bool {
        &&& self.radius != 0
        &&& self.radius_squared == spec_fmul(self.radius as int, self.radius as int)
        &&& material_wf(self.material)
    }

    /// The nearest intersection with parameter strictly inside the window, as
    /// the quadratic on the ray's parameter decides it: no intersection when
    /// the discriminant is negative or the direction has no length, else the
    /// nearer in-window root, else the farther, else nothing.
    #[verifier::opaque]
    pub open spec fn spec_hit(self, ray: Ray, t_min: int, t_max: int) -> Option<HitRecord> {
        let oc = ray.origin.spec_sub(self.center);
        let d = ray.direction;
        let a = d.spec_sq_mag();
        if a <= 0 {
            None
        } else {
            let k = oc.spec_dot(d);
            let c = spec_fsub(oc.spec_sq_mag(), self.radius_squared as int);
            let disc = spec_fsub(spec_fmul(k, k), spec_fmul(a, c));
            if disc < 0 {
                None
            } else {
                let sq = spec_fsqrt(disc);
                let t1 = spec_fdiv(spec_fsub(spec_fneg(k), sq), a);
                let t2 = spec_fdiv(spec_fadd(spec_fneg(k), sq), a);
                if t_min < t1 < t_max {
                    Some(self.spec_record(ray, t1 as i64))
                } else if t_min < t2 < t_max {
                    Some(self.spec_record(ray, t2 as i64))
                } else {
                    None
                }
            }
        }
    }

    /// The record for a hit of this sphere at parameter `t`.
    pub open spec fn spec_record(self, ray: Ray, t: i64) -> HitRecord {
        let point = ray.spec_trace(t as int);
        let outward = point.spec_sub(self.center).spec_div_by(self.radius as int);
        let front = ray.direction.spec_dot(outward) < 0;
        HitRecord {
            t,
            point,
            normal: if front {
                outward
            } else {
                outward.spec_neg()
            },
            front_face: front,
            material: self.material,
        }
    }

    /// Creates new Sphere. The radius must not vanish, so that the surface
    /// normals are defined.
    pub fn new(center: Vec3<i64>, radius: i64, material: Material) -> (r: Self)
        requires
            radius != 0,
            material_wf(material),
        ensures
            r.center == center,
            r.radius == radius,
            r.material == material,
            r.wf(),
    {
        Self { center, radius, radius_squared: fmul(radius, radius), material }
    }

    /// Returns center of Sphere.
    pub fn center(&self) -> (r: Vec3<i64>)
        ensures
            r == self.center,
    {
        self.center
    }

    /// Returns radius of Sphere.
    pub fn radius(&self) -> (r: i64)
        ensures
            r == self.radius,
    {
        self.radius
    }

    /// The nearest intersection of the ray with this sphere strictly inside
    /// the parameter window, or nothing.
    pub fn hit(&self, ray: &Ray, t_min: i64, t_max: i64) -> (r: Option<HitRecord>)
        requires
            self.wf(),
        ensures
            r == self.spec_hit(*ray, t_min as int, t_max as int),
            r matches Some(h) ==> t_min < h.t < t_max && h.material == self.material
                && ray.direction.spec_sq_mag() > 0,
    {
        proof {
            reveal(Sphere::spec_hit);
        }
        let center_to_origin = ray.origin().sub(&self.center);
        let ray_direction = ray.direction();
        let a = ray_direction.squared_magnitude();
        if a <= 0 {
            return None;
        }
        let k = center_to_origin.dot(&ray_direction);
        let c = fsub(center_to_origin.squared_magnitude(), self.radius_squared);
        let discriminant = fsub(fmul(k, k), fmul(a, c));
        if discriminant < 0 {
            return None;
        }
        let sqrt_d = fsqrt(discriminant);
        let root_near = fdiv(fsub(fneg(k), sqrt_d), a);
        let root_far = fdiv(fadd(fneg(k), sqrt_d), a);
        let mut t = root_near;
        if t <= t_min || t_max <= t {
            t = root_far;
            if t <= t_min || t_max <= t {
                return None;
            }
        }
        let point = ray.trace(t);
        let mut hit_record = HitRecord::new(t, point, self.material);
        let normal = point.sub(&self.center).div(self.radius);
        hit_record.set_face_normal(ray, normal);
        Some(hit_record)
    }

    /// A box with the sphere's extent on every axis.
    pub fn bounding(&self) -> (r: AABB)
        ensures
            r == spec_sphere_bounding(*self),
    {
        let rvec = Vec3::new(self.radius, self.radius, self.radius);
        AABB::from_two_points(self.center.sub(&rvec), self.center.add(&rvec))
    }
}

/// The bounding box of a sphere: the corner points on its diagonal.
pub open spec fn spec_sphere_bounding(s: Sphere) -> AABB {
    let rvec = Vec3 { x: s.radius, y: s.radius, z: s.radius };
    spec_box_of_corners(s.center.spec_sub(rvec), s.center.spec_add(rvec))
}

/// The bounding box of a triangle: the union of its vertices' boxes.
pub open spec fn spec_triangle_bounding(t: Triangle) -> AABB {
    AABB::spec_unite(
        spec_box_of_corners(t.vertices[0], t.vertices[1]),
        spec_box_of_corners(t.vertices[2], t.vertices[2]),
    )
}

/// A conservative enclosing box of a shape.
pub open spec fn spec_shape_bounding(s: Shape) -> AABB {
    match s {
        Shape::Sphere(sp) => spec_sphere_bounding(sp),
        Shape::Triangle(tr) => spec_triangle_bounding(tr),
    }
}

/// A flat triangle spanned by three vertices.
#[derive(Debug, Clone, Copy)]
pub struct Triangle {
    pub vertices: [Vec3<i64>; 3],
    pub edges: [Vec3<i64>; 2],
    pub material: Material,
}

impl Triangle {
    pub open spec fn wf(self) -> bool {
        &&& self.edges[0] == self.vertices[1].spec_sub(self.vertices[0])
        &&& self.edges[1] == self.vertices[2].spec_sub(self.vertices[0])
        &&& self.edges[0].spec_cross(self.edges[1]).spec_sq_mag() > 0
        &&& material_wf(self.material)
    }

    /// The intersection inside the window by the barycentric edge test:
    /// nothing when the ray runs parallel to the plane, when either
    /// coordinate leaves the triangle, or when the parameter leaves the
    /// window.
    #[verifier::opaque]
    pub open spec fn spec_hit(self, ray: Ray, t_min: int, t_max: int) -> Option<HitRecord> {
        let d = ray.direction;
        if d.spec_sq_mag() <= 0 {
            None
        } else {
            let h = d.spec_cross(self.edges[1]);
            let a = self.edges[0].spec_dot(h);
            if a == 0 {
                None
            } else {
                let s = ray.origin.spec_sub(self.vertices[0]);
                let u = spec_fdiv(s.spec_dot(h), a);
                if u < 0 || u > ONE {
                    None
                } else {
                    let q = s.spec_cross(self.edges[0]);
                    let v = spec_fdiv(d.spec_dot(q), a);
                    if v < 0 || spec_fadd(u, v) > ONE {
                        None
                    } else {
                        let t = spec_fdiv(self.edges[1].spec_dot(q), a);
                        if t <= t_min || t_max <= t {
                            None
                        } else {
                            Some(self.spec_record(ray, t as i64))
                        }
                    }
                }
            }
        }
    }

    /// The record for a hit of this triangle at parameter `t`.
    pub open spec fn spec_record(self, ray: Ray, t: i64) -> HitRecord {
        let point = ray.spec_trace(t as int);
        let outward = self.edges[0].spec_cross(self.edges[1]).spec_normalize();
        let front = ray.direction.spec_dot(outward) < 0;
        HitRecord {
            t,
            point,
            normal: if front {
                outward
            } else {
                outward.spec_neg()
            },
            front_face: front,
            material: self.material,
        }
    }

    /// Creates new `Triangle`. The vertices must not be collinear, so that
    /// the surface normal is defined.
    pub fn new(vertices: [Vec3<i64>; 3], material: Material) -> (r: Self)
        requires
            vertices[1].spec_sub(vertices[0]).spec_cross(
                vertices[2].spec_sub(vertices[0]),
            ).spec_sq_mag() > 0,
            material_wf(material),
        ensures
            r.vertices == vertices,
            r.material == material,
            r.wf(),
    {
        let e0 = vertices[1].sub(&vertices[0]);
        let e1 = vertices[2].sub(&vertices[0]);
        Self { vertices, edges: [e0, e1], material }
    }

    /// The intersection of the ray with this triangle strictly inside the
    /// parameter window, or nothing.
    pub fn hit(&self, ray: &Ray, t_min: i64, t_max: i64) -> (r: Option<HitRecord>)
        requires
            self.wf(),
        ensures
            r == self.spec_hit(*ray, t_min as int, t_max as int),
            r matches Some(h) ==> t_min < h.t < t_max && h.material == self.material
                && ray.direction.spec_sq_mag() > 0,
    {
        proof {
            reveal(Triangle::spec_hit);
        }
        let ray_direction = ray.direction();
        if ray_direction.squared_magnitude() <= 0 {
            return None;
        }
        let h = ray_direction.cross(&self.edges[1]);
        let a = self.edges[0].dot(&h);
        if a == 0 {
            return None;
        }
        let s = ray.origin().sub(&self.vertices[0]);
        let u = fdiv(s.dot(&h), a);
        if u < 0 || u > ONE {
            return None;
        }
        let q = s.cross(&self.edges[0]);
        let v = fdiv(ray_direction.dot(&q), a);
        if v < 0 || fadd(u, v) > ONE {
            return None;
        }
        let t = fdiv(self.edges[1].dot(&q), a);
        if t <= t_min || t_max <= t {
            return None;
        }
        let mut hit_record = HitRecord::new(t, ray.trace(t), self.material);
        let normal = self.edges[0].cross(&self.edges[1]).normalize();
        hit_record.set_face_normal(ray, normal);
        Some(hit_record)
    }

    /// A box containing all three vertices.
    pub fn bounding(&self) -> (r: AABB)
        ensures
            r == spec_triangle_bounding(*self),
    {
        AABB::unite(
            AABB::from_two_points(self.vertices[0], self.vertices[1]),
            AABB::from_two_points(self.vertices[2], self.vertices[2]),
        )
    }
}

/// The closed set of traceable shapes, dispatched by matching.
#[derive(Debug, Clone, Copy)]
pub enum Shape {
    Sphere(Sphere),
    Triangle(Triangle),
}

pub open spec fn shape_wf(s: Shape) -> bool {
    match s {
        Shape::Sphere(sp) => sp.wf(),
        Shape::Triangle(tr) => tr.wf(),
    }
}

pub open spec fn shape_material(s: Shape) -> Material {
    match s {
        Shape::Sphere(sp) => sp.material,
        Shape::Triangle(tr) => tr.material,
    }
}

/// What a shape's intersection test returns.
pub open spec fn spec_shape_hit(s: Shape, ray: Ray, t_min: int, t_max: int) -> Option<HitRecord> {
    match s {
        Shape::Sphere(sp) => sp.spec_hit(ray, t_min, t_max),
        Shape::Triangle(tr) => tr.spec_hit(ray, t_min, t_max),
    }
}

impl Shape {
    /// The nearest intersection with parameter strictly inside the window.
    pub fn hit(&self, ray: &Ray, t_min: i64, t_max: i64) -> (r: Option<HitRecord>)
        requires
            shape_wf(*self),
        ensures
            r == spec_shape_hit(*self, *ray, t_min as int, t_max as int),
            r matches Some(h) ==> t_min < h.t < t_max && h.material == shape_material(*self)
                && ray.direction.spec_sq_mag() > 0,
    {
        match self {
            Shape::Sphere(sp) => sp.hit(ray, t_min, t_max),
            Shape::Triangle(tr) => tr.hit(ray, t_min, t_max),
        }
    }

    /// A conservative enclosing box, used by the bounding-volume hierarchy.
    pub fn bounding(&self) -> (r: AABB)
        ensures
            r == spec_shape_bounding(*self),
    {
        match self {
            Shape::Sphere(sp) => sp.bounding(),
            Shape::Triangle(tr) => tr.bounding(),
        }
    }
}

/// A hit found inside a narrow window is what a wider window reports too:
/// narrowing the window never changes which intersection is nearest, only
/// whether one is admitted at all.
pub proof fn lemma_shape_hit_widen(s: Shape, ray: Ray, t_min: i64, w1: i64, w2: i64)
    requires
        w1 <= w2,
        spec_shape_hit(s, ray, t_min as int, w1 as int) is Some,
    ensures
        spec_shape_hit(s, ray, t_min as int, w2 as int) == spec_shape_hit(
            s,
            ray,
            t_min as int,
            w1 as int,
        ),
{
    reveal(Sphere::spec_hit);
    reveal(Triangle::spec_hit);
    match s {
        Shape::Sphere(sp) => {
            lemma_sphere_roots_ordered(sp, ray);
        },
        Shape::Triangle(_) => {},
    }
}

/// A hit reported by a wide window whose parameter also clears a narrower
/// bound is reported unchanged by the narrower window.
pub proof fn lemma_shape_hit_narrow(s: Shape, ray: Ray, t_min: i64, w1: i64, w2: i64)
    requires
        w1 <= w2,
        spec_shape_hit(s, ray, t_min as int, w2 as int) matches Some(h) && (h.t as int) < w1,
    ensures
        spec_shape_hit(s, ray, t_min as int, w1 as int) == spec_shape_hit(
            s,
            ray,
            t_min as int,
            w2 as int,
        ),
{
    reveal(Sphere::spec_hit);
    reveal(Triangle::spec_hit);
    match s {
        Shape::Sphere(sp) => {
            lemma_sphere_roots_ordered(sp, ray);
        },
        Shape::Triangle(_) => {},
    }
}

/// The nearer quadratic root never exceeds the farther one.
proof fn lemma_sphere_roots_ordered(sp: Sphere, ray: Ray)
    ensures
        ({
            let oc = ray.origin.spec_sub(sp.center);
            let d = ray.direction;
            let a = d.spec_sq_mag();
            let k = oc.spec_dot(d);
            let c = spec_fsub(oc.spec_sq_mag(), sp.radius_squared as int);
            let disc = spec_fsub(spec_fmul(k, k), spec_fmul(a, c));
            a > 0 && disc >= 0 ==> spec_fdiv(spec_fsub(spec_fneg(k), spec_fsqrt(disc)), a)
                <= spec_fdiv(spec_fadd(spec_fneg(k), spec_fsqrt(disc)), a)
        }),
{
    let oc = ray.origin.spec_sub(sp.center);
    let d = ray.direction;
    let a = d.spec_sq_mag();
    let k = oc.spec_dot(d);
    let c = spec_fsub(oc.spec_sq_mag(), sp.radius_squared as int);
    let disc = spec_fsub(spec_fmul(k, k), spec_fmul(a, c));
    if a > 0 && disc >= 0 {
        let sq = spec_fsqrt(disc);
        assert(sq >= 0);
        assert(spec_fsub(spec_fneg(k), sq) <= spec_fadd(spec_fneg(k), sq));
        lemma_fdiv_ordered(spec_fsub(spec_fneg(k), sq), spec_fadd(spec_fneg(k), sq), a);
    }
}


/// A ray aimed from outside at a sphere's center always meets it twice: in
/// exact arithmetic the quadratic's discriminant is the squared direction
/// length times the squared radius, which is positive whenever the eye is
/// not the center and the radius does not vanish — two real roots. Which of
/// them the intersection test selects, and that a negative discriminant
/// yields no hit, is pinned by the test's own contract.
#[verifier::rlimit(100)]
pub proof fn lemma_ray_at_center_two_roots(o: (int, int, int), c: (int, int, int), r: int, m: int)
    requires
        o != c,
        r != 0,
        m > 0,
    ensures
        ({
            let d = (m * (c.0 - o.0), m * (c.1 - o.1), m * (c.2 - o.2));
            let oc = (o.0 - c.0, o.1 - c.1, o.2 - c.2);
            crate::math::dot_exact(oc, d) * crate::math::dot_exact(oc, d) - crate::math::dot_exact(
                d,
                d,
            ) * (crate::math::dot_exact(oc, oc) - r * r) > 0
        }),
{
    let s = (c.0 - o.0) * (c.0 - o.0) + (c.1 - o.1) * (c.1 - o.1) + (c.2 - o.2) * (c.2 - o.2);
    assert(s > 0) by (nonlinear_arith)
        requires
            o != c,
            s == (c.0 - o.0) * (c.0 - o.0) + (c.1 - o.1) * (c.1 - o.1) + (c.2 - o.2) * (c.2
                - o.2),
    ;
    let d = (m * (c.0 - o.0), m * (c.1 - o.1), m * (c.2 - o.2));
    let oc = (o.0 - c.0, o.1 - c.1, o.2 - c.2);
    assert(crate::math::dot_exact(oc, d) == oc.0 * d.0 + oc.1 * d.1 + oc.2 * d.2);
    assert(oc.0 * d.0 + oc.1 * d.1 + oc.2 * d.2 == -m * s) by (nonlinear_arith)
        requires
            d.0 == m * (c.0 - o.0) && d.1 == m * (c.1 - o.1) && d.2 == m * (c.2 - o.2),
            oc.0 == o.0 - c.0 && oc.1 == o.1 - c.1 && oc.2 == o.2 - c.2,
            s == (c.0 - o.0) * (c.0 - o.0) + (c.1 - o.1) * (c.1 - o.1) + (c.2 - o.2) * (c.2
                - o.2),
    ;
    assert(d.0 * d.0 + d.1 * d.1 + d.2 * d.2 == m * m * s) by (nonlinear_arith)
        requires
            d.0 == m * (c.0 - o.0) && d.1 == m * (c.1 - o.1) && d.2 == m * (c.2 - o.2),
            s == (c.0 - o.0) * (c.0 - o.0) + (c.1 - o.1) * (c.1 - o.1) + (c.2 - o.2) * (c.2
                - o.2),
    ;
    assert(oc.0 * oc.0 + oc.1 * oc.1 + oc.2 * oc.2 == s) by (nonlinear_arith)
        requires
            oc.0 == o.0 - c.0 && oc.1 == o.1 - c.1 && oc.2 == o.2 - c.2,
            s == (c.0 - o.0) * (c.0 - o.0) + (c.1 - o.1) * (c.1 - o.1) + (c.2 - o.2) * (c.2
                - o.2),
    ;
    assert((-m * s) * (-m * s) - (m * m * s) * (s - r * r) == m * m * s * (r * r))
        by (nonlinear_arith);
    assert(m * m * s * (r * r) > 0) by (nonlinear_arith)
        requires
            m > 0,
            s > 0,
            r != 0,
    ;
}

} // verus!
