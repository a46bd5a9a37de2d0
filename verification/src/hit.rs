use vstd::prelude::*;

use crate::materials::Material;
use crate::math::{Ray, Vec3};

verus! {

/// Record of a ray/object intersection: the hit parameter, the point reached,
/// the outward-oriented unit normal, which side of the surface was struck, and
/// the material of the struck object, for the integrator to scatter with.
///
/// Once the face normal is set, the stored normal opposes the incident ray.
#[derive(Debug, Clone, Copy)]
pub struct HitRecord {
    pub t: i64,
    pub point: Vec3<i64>,
    pub normal: Vec3<i64>,
    pub front_face: bool,
    pub material: Material,
}

impl HitRecord {
    /// Creates a new record for a hit at parameter `t` and position `point`
    /// on an object made of `material`, with the normal not yet oriented.
    pub fn new(t: i64, point: Vec3<i64>, material: Material) -> (r: Self)
        ensures
            r.t == t,
            r.point == point,
            r.material == material,
            r.normal == (Vec3 { x: 0i64, y: 0i64, z: 0i64 }),
            !r.front_face,
    {
        Self { t, point, normal: Vec3 { x: 0, y: 0, z: 0 }, front_face: false, material }
    }

    /// Returns multiplier `t` of hit record.
    pub fn t(&self) -> (r: i64)
        ensures
            r == self.t,
    {
        self.t
    }

    /// Returns point of hit.
    pub fn point(&self) -> (r: Vec3<i64>)
        ensures
            r == self.point,
    {
        self.point
    }

    /// Returns normal of hit surface.
    pub fn normal(&self) -> (r: Vec3<i64>)
        ensures
            r == self.normal,
    {
        self.normal
    }

    /// Returns true if the stored normal points outward from the surface.
    pub fn front_face(&self) -> (r: bool)
        ensures
            r == self.front_face,
    {
        self.front_face
    }

    /// Returns the material of the struck object.
    pub fn material(&self) -> (r: Material)
        ensures
            r == self.material,
    {
        self.material
    }

    /// Orients the given outward normal against the incident ray: the record
    /// keeps the normal whose dot product with the ray direction is negative,
    /// and whether that is the outward one.
    pub fn set_face_normal(&mut self, ray: &Ray, normal: Vec3<i64>)
        ensures
            final(self).front_face == (ray.direction.spec_dot(normal) < 0),
            final(self).normal == if ray.direction.spec_dot(normal) < 0 {
                normal
            } else {
                normal.spec_neg()
            },
            final(self).t == old(self).t,
            final(self).point == old(self).point,
            final(self).material == old(self).material,
    {
        self.front_face = ray.direction.dot(&normal) < 0;
        self.normal = if self.front_face {
            normal
        } else {
            normal.neg()
        };
    }
}

} // verus!
