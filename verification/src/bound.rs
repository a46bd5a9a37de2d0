use vstd::prelude::*;

use crate::fixed::{fadd, fdiv, fsub, sdiv, spec_fadd, spec_fdiv, spec_fsub, spec_sdiv};
use crate::math::Ray;

verus! {

/// A closed scalar range, one axis of a bounding box.
#[derive(Debug, Clone, Copy, PartialEq, Eq, Structural)]
pub struct Interval {
    pub min: i64,
    pub max: i64,
}

impl Interval {
    /// The empty interval at the origin.
    pub fn new() -> (r: Self)
        ensures
            r.min == 0 && r.max == 0,
    {
        Self { min: 0, max: 0 }
    }

    /// The interval with the given limits.
    pub fn limits(min: i64, max: i64) -> (r: Self)
        ensures
            r == (Interval { min, max }),
    {
        Self { min, max }
    }

    /// The smallest interval containing both arguments: its lower limit is the
    /// lesser of the lower limits, its upper limit the greater of the upper.
    pub fn unite(first: Interval, second: Interval) -> (r: Self)
        ensures
            r.min == if first.min <= second.min { first.min } else { second.min },
            r.max == if first.max >= second.max { first.max } else { second.max },
            r.min <= first.min && r.min <= second.min,
            r.max >= first.max && r.max >= second.max,
    {
        Self {
            min: if first.min <= second.min {
                first.min
            } else {
                second.min
            },
            max: if first.max >= second.max {
                first.max
            } else {
                second.max
            },
        }
    }

    /// The length of the interval.
    pub fn len(&self) -> (r: i64)
        ensures
            r == spec_fsub(self.max as int, self.min as int),
    {
        fsub(self.max, self.min)
    }

    /// The interval widened by half of `delta` on each side.
    pub fn expand(&self, delta: i64) -> (r: Self)
        ensures
            r.min == spec_fsub(self.min as int, spec_sdiv(delta as int, 2)),
            r.max == spec_fadd(self.max as int, spec_sdiv(delta as int, 2)),
    {
        let padding = sdiv(delta, 2);
        Self { min: fsub(self.min, padding), max: fadd(self.max, padding) }
    }
}

/// An axis-aligned bounding box: one interval per coordinate axis.
#[derive(Debug, Clone, Copy, PartialEq, Eq)]
pub struct AABB {
    pub axes: [Interval; 3],
}

/// The slab test along one axis: the parameter window that keeps the ray
/// inside the slab, or nothing when the window becomes empty. A ray running
/// parallel to the slab keeps the window exactly when its origin lies inside.
pub open spec fn spec_slab(iv: Interval, o: int, d: int, t_min: int, t_max: int) -> Option<
    (i64, i64),
> {
    if d == 0 {
        if o < iv.min || o > iv.max {
            None
        } else {
            Some((t_min as i64, t_max as i64))
        }
    } else {
        let ta = spec_fdiv(spec_fsub(iv.min as int, o), d);
        let tb = spec_fdiv(spec_fsub(iv.max as int, o), d);
        let t0 = if d < 0 {
            tb
        } else {
            ta
        };
        let t1 = if d < 0 {
            ta
        } else {
            tb
        };
        let lo = if t0 > t_min {
            t0
        } else {
            t_min
        };
        let hi = if t1 < t_max {
            t1
        } else {
            t_max
        };
        if hi <= lo {
            None
        } else {
            Some((lo as i64, hi as i64))
        }
    }
}

fn slab(iv: &Interval, o: i64, d: i64, t_min: i64, t_max: i64) -> (r: Option<(i64, i64)>)
    ensures
        r == spec_slab(*iv, o as int, d as int, t_min as int, t_max as int),
{
    if d == 0 {
        if o < iv.min || o > iv.max {
            None
        } else {
            Some((t_min, t_max))
        }
    } else {
        let ta = fdiv(fsub(iv.min, o), d);
        let tb = fdiv(fsub(iv.max, o), d);
        let t0 = if d < 0 {
            tb
        } else {
            ta
        };
        let t1 = if d < 0 {
            ta
        } else {
            tb
        };
        let lo = if t0 > t_min {
            t0
        } else {
            t_min
        };
        let hi = if t1 < t_max {
            t1
        } else {
            t_max
        };
        if hi <= lo {
            None
        } else {
            Some((lo, hi))
        }
    }
}

/// The slab test over all three axes: whether a parameter window survives.
pub open spec fn spec_aabb_hit(b: AABB, ray: Ray, t_min: int, t_max: int) -> bool {
    match spec_slab(b.axes[0], ray.origin.x as int, ray.direction.x as int, t_min, t_max) {
        None => false,
        Some((l0, h0)) => match spec_slab(
            b.axes[1],
            ray.origin.y as int,
            ray.direction.y as int,
            l0 as int,
            h0 as int,
        ) {
            None => false,
            Some((l1, h1)) => spec_slab(
                b.axes[2],
                ray.origin.z as int,
                ray.direction.z as int,
                l1 as int,
                h1 as int,
            ) is Some,
        },
    }
}

/// The box with two given points at opposite corners.
pub open spec fn spec_box_of_corners(a: crate::math::Vec3<i64>, b: crate::math::Vec3<i64>) -> AABB {
    AABB { axes: [
        Interval {
            min: if a.x <= b.x { a.x } else { b.x },
            max: if a.x >= b.x { a.x } else { b.x },
        },
        Interval {
            min: if a.y <= b.y { a.y } else { b.y },
            max: if a.y >= b.y { a.y } else { b.y },
        },
        Interval {
            min: if a.z <= b.z { a.z } else { b.z },
            max: if a.z >= b.z { a.z } else { b.z },
        },
    ] }
}

impl AABB {
    /// The smallest box containing both boxes, axis by axis.
    pub open spec fn spec_unite(first: AABB, second: AABB) -> AABB {
        AABB { axes: [
            Interval {
                min: if first.axes[0].min <= second.axes[0].min {
                    first.axes[0].min
                } else {
                    second.axes[0].min
                },
                max: if first.axes[0].max >= second.axes[0].max {
                    first.axes[0].max
                } else {
                    second.axes[0].max
                },
            },
            Interval {
                min: if first.axes[1].min <= second.axes[1].min {
                    first.axes[1].min
                } else {
                    second.axes[1].min
                },
                max: if first.axes[1].max >= second.axes[1].max {
                    first.axes[1].max
                } else {
                    second.axes[1].max
                },
            },
            Interval {
                min: if first.axes[2].min <= second.axes[2].min {
                    first.axes[2].min
                } else {
                    second.axes[2].min
                },
                max: if first.axes[2].max >= second.axes[2].max {
                    first.axes[2].max
                } else {
                    second.axes[2].max
                },
            },
        ] }
    }

    /// The empty box at the origin.
    pub fn new() -> (r: Self)
        ensures
            r.axes[0] == (Interval { min: 0i64, max: 0i64 }),
            r.axes[1] == (Interval { min: 0i64, max: 0i64 }),
            r.axes[2] == (Interval { min: 0i64, max: 0i64 }),
    {
        Self { axes: [Interval { min: 0, max: 0 }, Interval { min: 0, max: 0 }, Interval {
            min: 0,
            max: 0,
        }] }
    }

    /// The box with the given axis intervals.
    pub fn with_intervals(axes: [Interval; 3]) -> (r: Self)
        ensures
            r.axes == axes,
    {
        Self { axes }
    }

    /// The smallest box with two given points at opposite corners.
    pub fn from_two_points(a: crate::math::Vec3<i64>, b: crate::math::Vec3<i64>) -> (r: Self)
        ensures
            r == spec_box_of_corners(a, b),
            r.axes[0].min == if a.x <= b.x { a.x } else { b.x },
            r.axes[0].max == if a.x >= b.x { a.x } else { b.x },
            r.axes[1].min == if a.y <= b.y { a.y } else { b.y },
            r.axes[1].max == if a.y >= b.y { a.y } else { b.y },
            r.axes[2].min == if a.z <= b.z { a.z } else { b.z },
            r.axes[2].max == if a.z >= b.z { a.z } else { b.z },
    {
        Self { axes: [
            Interval {
                min: if a.x <= b.x {
                    a.x
                } else {
                    b.x
                },
                max: if a.x >= b.x {
                    a.x
                } else {
                    b.x
                },
            },
            Interval {
                min: if a.y <= b.y {
                    a.y
                } else {
                    b.y
                },
                max: if a.y >= b.y {
                    a.y
                } else {
                    b.y
                },
            },
            Interval {
                min: if a.z <= b.z {
                    a.z
                } else {
                    b.z
                },
                max: if a.z >= b.z {
                    a.z
                } else {
                    b.z
                },
            },
        ] }
    }

    /// The smallest box containing both boxes, the union taken axis by axis.
    pub fn unite(first: AABB, second: AABB) -> (r: Self)
        ensures
            r == AABB::spec_unite(first, second),
            forall|i: int|
                0 <= i < 3 ==> r.axes[i].min == if first.axes[i].min <= second.axes[i].min {
                    first.axes[i].min
                } else {
                    second.axes[i].min
                },
            forall|i: int|
                0 <= i < 3 ==> r.axes[i].max == if first.axes[i].max >= second.axes[i].max {
                    first.axes[i].max
                } else {
                    second.axes[i].max
                },
            forall|i: int|
                0 <= i < 3 ==> r.axes[i].min <= first.axes[i].min && r.axes[i].min
                    <= second.axes[i].min && r.axes[i].max >= first.axes[i].max && r.axes[i].max
                    >= second.axes[i].max,
    {
        Self { axes: [
            Interval::unite(first.axes[0], second.axes[0]),
            Interval::unite(first.axes[1], second.axes[1]),
            Interval::unite(first.axes[2], second.axes[2]),
        ] }
    }

    /// The slab-method pruning test: narrows a parameter window axis by axis
    /// and reports whether any window is left. It never builds a surface hit.
    pub fn hit(&self, ray: &Ray, t_min: i64, t_max: i64) -> (r: bool)
        ensures
            r == spec_aabb_hit(*self, *ray, t_min as int, t_max as int),
    {
        match slab(&self.axes[0], ray.origin.x, ray.direction.x, t_min, t_max) {
            None => false,
            Some((l0, h0)) => match slab(&self.axes[1], ray.origin.y, ray.direction.y, l0, h0) {
                None => false,
                Some((l1, h1)) => slab(
                    &self.axes[2],
                    ray.origin.z,
                    ray.direction.z,
                    l1,
                    h1,
                ).is_some(),
            },
        }
    }

    /// A box bounds itself.
    pub fn bounding(&self) -> (r: AABB)
        ensures
            r == *self,
    {
        *self
    }
}

} // verus!
