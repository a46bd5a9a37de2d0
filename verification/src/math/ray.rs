use vstd::prelude::*;

use super::vec3::Vec3;

verus! {

/// Ray is an object which consists of an `origin` and a `direction`.
#[derive(Debug, Clone, Copy, PartialEq, Eq)]
pub struct Ray {
    pub origin: Vec3<i64>,
    pub direction: Vec3<i64>,
}

impl Ray {
    pub open spec fn spec_trace(self, t: int) -> Vec3<i64> {
        self.origin.spec_add(self.direction.spec_scale(t))
    }

    /// Creates new Ray.
    pub fn new(origin: Vec3<i64>, direction: Vec3<i64>) -> (r: Self)
        ensures
            r == (Ray { origin, direction }),
    {
        Self { origin, direction }
    }

    /// Returns origin of ray.
    pub fn origin(&self) -> (r: Vec3<i64>)
        ensures
            r == self.origin,
    {
        self.origin
    }

    /// Returns direction of ray.
    pub fn direction(&self) -> (r: Vec3<i64>)
        ensures
            r == self.direction,
    {
        self.direction
    }

    /// Returns the position reached after tracing the ray for parameter `t`.
    pub fn trace(&self, t: i64) -> (r: Vec3<i64>)
        ensures
            r == self.spec_trace(t as int),
    {
        self.origin.add(&self.direction.mul(t))
    }
}

} // verus!
