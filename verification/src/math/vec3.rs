use vstd::prelude::*;

use crate::fixed::{
    clip, fabs, fadd, fdiv, fmul, fneg, fsqrt, fsub, spec_fabs, spec_fadd, spec_fdiv, spec_fmul,
    spec_fneg, spec_fsqrt, spec_fsub, ONE,
};
use crate::random::random_in_range;

verus! {

/// A three-component vector. The library's geometry works on `Vec3<i64>`,
/// whose components are fixed-point scalars.
#[derive(Debug, Clone, Copy, PartialEq, Eq)]
pub struct Vec3<T> {
    pub x: T,
    pub y: T,
    pub z: T,
}

impl<T> Vec3<T> {
    /// Creates a new vector from its three components.
    pub fn new(x: T, y: T, z: T) -> (r: Self)
        ensures
            r == (Vec3 { x, y, z }),
    {
        Self { x, y, z }
    }
}

impl Vec3<i64> {
    pub open spec fn spec_add(self, other: Self) -> Self {
        Vec3 {
            x: spec_fadd(self.x as int, other.x as int) as i64,
            y: spec_fadd(self.y as int, other.y as int) as i64,
            z: spec_fadd(self.z as int, other.z as int) as i64,
        }
    }

    pub open spec fn spec_sub(self, other: Self) -> Self {
        Vec3 {
            x: spec_fsub(self.x as int, other.x as int) as i64,
            y: spec_fsub(self.y as int, other.y as int) as i64,
            z: spec_fsub(self.z as int, other.z as int) as i64,
        }
    }

    pub open spec fn spec_scale(self, k: int) -> Self {
        Vec3 {
            x: spec_fmul(self.x as int, k) as i64,
            y: spec_fmul(self.y as int, k) as i64,
            z: spec_fmul(self.z as int, k) as i64,
        }
    }

    pub open spec fn spec_div_by(self, k: int) -> Self {
        Vec3 {
            x: spec_fdiv(self.x as int, k) as i64,
            y: spec_fdiv(self.y as int, k) as i64,
            z: spec_fdiv(self.z as int, k) as i64,
        }
    }

    pub open spec fn spec_neg(self) -> Self {
        Vec3 {
            x: spec_fneg(self.x as int) as i64,
            y: spec_fneg(self.y as int) as i64,
            z: spec_fneg(self.z as int) as i64,
        }
    }

    pub open spec fn spec_dot(self, other: Self) -> int {
        spec_fadd(
            spec_fadd(
                spec_fmul(self.x as int, other.x as int),
                spec_fmul(self.y as int, other.y as int),
            ),
            spec_fmul(self.z as int, other.z as int),
        )
    }

    pub open spec fn spec_sq_mag(self) -> int {
        self.spec_dot(self)
    }

    pub open spec fn spec_cross(self, other: Self) -> Self {
        Vec3 {
            x: spec_fsub(
                spec_fmul(self.y as int, other.z as int),
                spec_fmul(self.z as int, other.y as int),
            ) as i64,
            y: spec_fsub(
                spec_fmul(self.z as int, other.x as int),
                spec_fmul(self.x as int, other.z as int),
            ) as i64,
            z: spec_fsub(
                spec_fmul(self.x as int, other.y as int),
                spec_fmul(self.y as int, other.x as int),
            ) as i64,
        }
    }

    pub open spec fn spec_reflect(self, normal: Self) -> Self {
        let d = self.spec_dot(normal);
        self.spec_sub(normal.spec_scale(spec_fadd(d, d)))
    }

    pub open spec fn spec_len(self) -> int {
        spec_fsqrt(self.spec_sq_mag())
    }

    pub open spec fn spec_normalize(self) -> Self {
        self.spec_div_by(self.spec_len())
    }

    /// Componentwise sum.
    pub fn add(&self, other: &Self) -> (r: Self)
        ensures
            r == self.spec_add(*other),
    {
        Vec3 { x: fadd(self.x, other.x), y: fadd(self.y, other.y), z: fadd(self.z, other.z) }
    }

    /// Componentwise difference.
    pub fn sub(&self, other: &Self) -> (r: Self)
        ensures
            r == self.spec_sub(*other),
    {
        Vec3 { x: fsub(self.x, other.x), y: fsub(self.y, other.y), z: fsub(self.z, other.z) }
    }

    /// The vector scaled by a scalar.
    pub fn mul(&self, k: i64) -> (r: Self)
        ensures
            r == self.spec_scale(k as int),
    {
        Vec3 { x: fmul(self.x, k), y: fmul(self.y, k), z: fmul(self.z, k) }
    }

    /// The vector divided by a nonzero scalar.
    pub fn div(&self, k: i64) -> (r: Self)
        requires
            k != 0,
        ensures
            r == self.spec_div_by(k as int),
    {
        Vec3 { x: fdiv(self.x, k), y: fdiv(self.y, k), z: fdiv(self.z, k) }
    }

    /// The opposite vector.
    pub fn neg(&self) -> (r: Self)
        ensures
            r == self.spec_neg(),
    {
        Vec3 { x: fneg(self.x), y: fneg(self.y), z: fneg(self.z) }
    }

    /// Returns dot product of two vectors.
    pub fn dot(&self, other: &Self) -> (r: i64)
        ensures
            r == self.spec_dot(*other),
    {
        fadd(fadd(fmul(self.x, other.x), fmul(self.y, other.y)), fmul(self.z, other.z))
    }

    /// Return squared length of vector.
    pub fn squared_magnitude(&self) -> (r: i64)
        ensures
            r == self.spec_sq_mag(),
            r >= 0,
    {
        proof {
            lemma_sq_mag_nonneg(*self);
        }
        self.dot(self)
    }

    /// Returns cross product of two vectors.
    pub fn cross(&self, other: &Self) -> (r: Self)
        ensures
            r == self.spec_cross(*other),
    {
        Vec3 {
            x: fsub(fmul(self.y, other.z), fmul(self.z, other.y)),
            y: fsub(fmul(self.z, other.x), fmul(self.x, other.z)),
            z: fsub(fmul(self.x, other.y), fmul(self.y, other.x)),
        }
    }

    /// Returns vector reflected from the normal of unit length.
    pub fn reflect(&self, normal: &Self) -> (r: Self)
        ensures
            r == self.spec_reflect(*normal),
    {
        let d = self.dot(normal);
        self.sub(&normal.mul(fadd(d, d)))
    }

    /// Return vector length.
    pub fn len(&self) -> (r: i64)
        ensures
            r == self.spec_len(),
            r >= 0,
    {
        fsqrt(self.squared_magnitude())
    }

    /// Returns normalized vector, one of length close to `ONE`.
    /// The zero vector has no direction, so a positive squared length is required.
    pub fn normalize(&self) -> (r: Self)
        requires
            self.spec_sq_mag() > 0,
        ensures
            r == self.spec_normalize(),
    {
        let l = self.len();
        proof {
            let n = (self.spec_sq_mag() * ONE) as nat;
            crate::fixed::lemma_isqrt_bounds(n);
            assert(n >= 65536);
            if crate::fixed::spec_isqrt(n) == 0 {
                assert((crate::fixed::spec_isqrt(n) + 1) * (crate::fixed::spec_isqrt(n) + 1)
                    == 1nat) by (nonlinear_arith)
                    requires
                        crate::fixed::spec_isqrt(n) == 0,
                ;
            }
            assert(l != 0);
        }
        self.div(l)
    }

    pub open spec fn spec_refract(self, normal: Self, eta_ratio: int) -> Self {
        let cos = spec_fneg(self.spec_dot(normal));
        let cos_c = if cos > ONE {
            ONE as int
        } else {
            cos
        };
        let perp = self.spec_add(normal.spec_scale(cos_c)).spec_scale(eta_ratio);
        let k = spec_fsub(ONE as int, perp.spec_sq_mag());
        let k_c = if k < 0 {
            0
        } else {
            k
        };
        perp.spec_add(normal.spec_scale(spec_fneg(spec_fsqrt(k_c))))
    }

    /// Snell's-law refraction of this direction, assumed unit length, through a
    /// surface with the given unit normal and ratio of refraction indices.
    /// Callers must rule out total internal reflection beforehand.
    pub fn refract(&self, normal: &Self, eta_ratio: i64) -> (r: Self)
        ensures
            r == self.spec_refract(*normal, eta_ratio as int),
    {
        let cos0 = fneg(self.dot(normal));
        let cos = if cos0 > ONE {
            ONE
        } else {
            cos0
        };
        let perp = self.add(&normal.mul(cos)).mul(eta_ratio);
        let k = fsub(ONE, perp.squared_magnitude());
        let k_c = if k < 0 {
            0
        } else {
            k
        };
        perp.add(&normal.mul(fneg(fsqrt(k_c))))
    }

    /// True when every component is strictly within `epsilon` of zero.
    pub fn near_epsilon(&self, epsilon: i64) -> (r: bool)
        ensures
            r == (spec_fabs(self.x as int) < epsilon && spec_fabs(self.y as int) < epsilon
                && spec_fabs(self.z as int) < epsilon),
    {
        fabs(self.x) < epsilon && fabs(self.y) < epsilon && fabs(self.z) < epsilon
    }

    /// Returns a random vector with every coordinate in `[-ONE, ONE]`.
    pub fn random() -> (r: Self)
        ensures
            -ONE <= r.x <= ONE,
            -ONE <= r.y <= ONE,
            -ONE <= r.z <= ONE,
    {
        Vec3 {
            x: random_in_range(-ONE, ONE + 1),
            y: random_in_range(-ONE, ONE + 1),
            z: random_in_range(-ONE, ONE + 1),
        }
    }

    /// Returns a random vector strictly inside the unit sphere, by rejection
    /// sampling with a bounded number of redraws; if every draw is rejected,
    /// which is vanishingly unlikely, the center of the sphere is returned.
    pub fn random_in_unit_sphere() -> (r: Self)
        ensures
            r.spec_sq_mag() < ONE,
            -ONE <= r.x <= ONE,
            -ONE <= r.y <= ONE,
            -ONE <= r.z <= ONE,
    {
        let mut attempts: u32 = 64;
        while attempts > 0
            decreases attempts,
        {
            let v = Self::random();
            if v.squared_magnitude() < ONE {
                return v;
            }
            attempts = attempts - 1;
        }
        let o = Vec3 { x: 0i64, y: 0i64, z: 0i64 };
        proof {
            lemma_zero_sq_mag(o);
        }
        o
    }

    /// Returns a random vector strictly inside the unit disk of the x/y plane.
    pub fn random_in_unit_disk() -> (r: Self)
        ensures
            r.spec_sq_mag() < ONE,
            r.z == 0,
            -ONE <= r.x <= ONE,
            -ONE <= r.y <= ONE,
    {
        let mut attempts: u32 = 64;
        while attempts > 0
            decreases attempts,
        {
            let v = Vec3 {
                x: random_in_range(-ONE, ONE + 1),
                y: random_in_range(-ONE, ONE + 1),
                z: 0i64,
            };
            if v.squared_magnitude() < ONE {
                return v;
            }
            attempts = attempts - 1;
        }
        let o = Vec3 { x: 0i64, y: 0i64, z: 0i64 };
        proof {
            lemma_zero_sq_mag(o);
        }
        o
    }
}

/// A squared length is never negative: each squared component is nonnegative
/// and the saturating sums keep it so.
pub proof fn lemma_sq_mag_nonneg(v: Vec3<i64>)
    ensures
        v.spec_sq_mag() >= 0,
{
    assert((v.x as int) * (v.x as int) >= 0) by (nonlinear_arith);
    assert((v.y as int) * (v.y as int) >= 0) by (nonlinear_arith);
    assert((v.z as int) * (v.z as int) >= 0) by (nonlinear_arith);
}

proof fn lemma_zero_sq_mag(v: Vec3<i64>)
    requires
        v.x == 0 && v.y == 0 && v.z == 0,
    ensures
        v.spec_sq_mag() == 0,
{
}


/// The exact dot product of integer triples, before any fixed-point rounding.
pub open spec fn dot_exact(a: (int, int, int), b: (int, int, int)) -> int {
    a.0 * b.0 + a.1 * b.1 + a.2 * b.2
}

/// The exact mirror reflection of `v` about a unit normal `n`.
pub open spec fn reflect_exact(v: (int, int, int), n: (int, int, int)) -> (int, int, int) {
    (
        v.0 - 2 * dot_exact(v, n) * n.0,
        v.1 - 2 * dot_exact(v, n) * n.1,
        v.2 - 2 * dot_exact(v, n) * n.2,
    )
}

/// Reflection about a unit normal preserves length and flips the normal
/// component: in exact arithmetic, the reflected vector's squared length
/// equals the original's, and its dot product with the normal is the
/// original's negated. The fixed-point operations round each product
/// separately, so over them this holds only where no rounding occurs;
/// `lemma_reflect_axis_normal` states such a case.
pub proof fn lemma_reflect_exact(v: (int, int, int), n: (int, int, int))
    requires
        dot_exact(n, n) == 1,
    ensures
        dot_exact(reflect_exact(v, n), reflect_exact(v, n)) == dot_exact(v, v),
        dot_exact(reflect_exact(v, n), n) == -dot_exact(v, n),
{
    let d = dot_exact(v, n);
    let r = reflect_exact(v, n);
    assert(d == v.0 * n.0 + v.1 * n.1 + v.2 * n.2);
    assert(r.0 == v.0 - 2 * d * n.0 && r.1 == v.1 - 2 * d * n.1 && r.2 == v.2 - 2 * d * n.2);
    assert(r.0 * r.0 + r.1 * r.1 + r.2 * r.2 == v.0 * v.0 + v.1 * v.1 + v.2 * v.2)
        by (nonlinear_arith)
        requires
            n.0 * n.0 + n.1 * n.1 + n.2 * n.2 == 1,
            d == v.0 * n.0 + v.1 * n.1 + v.2 * n.2,
            r.0 == v.0 - 2 * d * n.0,
            r.1 == v.1 - 2 * d * n.1,
            r.2 == v.2 - 2 * d * n.2,
    ;
    assert(r.0 * n.0 + r.1 * n.1 + r.2 * n.2 == -d) by (nonlinear_arith)
        requires
            n.0 * n.0 + n.1 * n.1 + n.2 * n.2 == 1,
            d == v.0 * n.0 + v.1 * n.1 + v.2 * n.2,
            r.0 == v.0 - 2 * d * n.0,
            r.1 == v.1 - 2 * d * n.1,
            r.2 == v.2 - 2 * d * n.2,
    ;
}

/// A unit normal along a coordinate axis: exactly one component is plus or
/// minus `ONE`.
pub open spec fn axis_unit(n: Vec3<i64>) -> bool {
    ||| (n.x == ONE || n.x == -ONE) && n.y == 0 && n.z == 0
    ||| n.x == 0 && (n.y == ONE || n.y == -ONE) && n.z == 0
    ||| n.x == 0 && n.y == 0 && (n.z == ONE || n.z == -ONE)
}

/// Over an axis-aligned unit normal the fixed-point products are exact, and
/// the reflection law holds of the executable operations themselves: the
/// squared length is kept and the normal component flips sign.
pub proof fn lemma_reflect_axis_normal(v: Vec3<i64>, n: Vec3<i64>)
    requires
        axis_unit(n),
        -0x1000_0000_0000_0000 <= v.x <= 0x1000_0000_0000_0000,
        -0x1000_0000_0000_0000 <= v.y <= 0x1000_0000_0000_0000,
        -0x1000_0000_0000_0000 <= v.z <= 0x1000_0000_0000_0000,
    ensures
        v.spec_reflect(n).spec_sq_mag() == v.spec_sq_mag(),
        v.spec_reflect(n).spec_dot(n) == spec_fneg(v.spec_dot(n)),
{
    assert forall|a: int|
        #![trigger spec_fmul(a, 65536)]
        #![trigger spec_fmul(65536, a)]
        #![trigger spec_fmul(a, -65536)]
        #![trigger spec_fmul(-65536, a)]
        spec_fmul(a, 65536) == clip(a) && spec_fmul(65536, a) == clip(a) && spec_fmul(a, -65536)
            == clip(-a) && spec_fmul(-65536, a) == clip(-a) && spec_fmul(a, 0) == 0 && spec_fmul(
            0,
            a,
        ) == 0 by {
        crate::fixed::lemma_fmul_unit(a);
    }
    let r = v.spec_reflect(n);
    if n.x == ONE || n.x == -ONE {
        assert(r.x == -v.x && r.y == v.y && r.z == v.z);
        assert((r.x as int) * (r.x as int) == (v.x as int) * (v.x as int)) by (nonlinear_arith)
            requires
                r.x == -(v.x as int),
        ;
    } else if n.y == ONE || n.y == -ONE {
        assert(r.x == v.x && r.y == -v.y && r.z == v.z);
        assert((r.y as int) * (r.y as int) == (v.y as int) * (v.y as int)) by (nonlinear_arith)
            requires
                r.y == -(v.y as int),
        ;
    } else {
        assert(r.x == v.x && r.y == v.y && r.z == -v.z);
        assert((r.z as int) * (r.z as int) == (v.z as int) * (v.z as int)) by (nonlinear_arith)
            requires
                r.z == -(v.z as int),
        ;
    }
}

} // verus!
