use vstd::prelude::*;

use crate::fixed::{
    clamp01, fadd, fmul, fsqrt, sdiv, spec_clamp01, spec_fadd, spec_fmul, spec_fsqrt, spec_sdiv,
    tdiv, ONE,
};

verus! {

/// Color structure with components nominally in `0..=ONE`, not auto-clamped.
#[derive(Debug, Clone, Copy, PartialEq, Eq, Structural)]
pub struct RGB(pub i64, pub i64, pub i64);

/// One channel quantized to a byte: scaled to `0..=255` and truncated,
/// out-of-range values landing on the nearest end.
pub open spec fn spec_as_byte(c: int) -> int {
    let q = spec_sdiv(c, 256);
    if q < 0 {
        0
    } else if q > 255 {
        255
    } else {
        q
    }
}

/// One channel tone-mapped for a gamma of two: clamped into the nominal
/// range, then raised to the power one half.
pub open spec fn spec_gamma(c: int) -> int {
    spec_fsqrt(spec_clamp01(c))
}

impl RGB {
    /// Creates new `RGB`.
    pub fn new(r: i64, g: i64, b: i64) -> (c: Self)
        ensures
            c == RGB(r, g, b),
    {
        RGB(r, g, b)
    }

    /// Returns red component of color.
    pub fn r(&self) -> (r: i64)
        ensures
            r == self.0,
    {
        self.0
    }

    /// Returns green component of color.
    pub fn g(&self) -> (r: i64)
        ensures
            r == self.1,
    {
        self.1
    }

    /// Returns blue component of color.
    pub fn b(&self) -> (r: i64)
        ensures
            r == self.2,
    {
        self.2
    }

    pub open spec fn spec_add(self, other: Self) -> Self {
        RGB(
            spec_fadd(self.0 as int, other.0 as int) as i64,
            spec_fadd(self.1 as int, other.1 as int) as i64,
            spec_fadd(self.2 as int, other.2 as int) as i64,
        )
    }

    pub open spec fn spec_mul(self, other: Self) -> Self {
        RGB(
            spec_fmul(self.0 as int, other.0 as int) as i64,
            spec_fmul(self.1 as int, other.1 as int) as i64,
            spec_fmul(self.2 as int, other.2 as int) as i64,
        )
    }

    pub open spec fn spec_scale(self, k: int) -> Self {
        RGB(
            spec_fmul(self.0 as int, k) as i64,
            spec_fmul(self.1 as int, k) as i64,
            spec_fmul(self.2 as int, k) as i64,
        )
    }

    pub open spec fn spec_div_count(self, n: int) -> Self {
        RGB(
            spec_sdiv(self.0 as int, n) as i64,
            spec_sdiv(self.1 as int, n) as i64,
            spec_sdiv(self.2 as int, n) as i64,
        )
    }

    pub open spec fn spec_correct_gamma(self) -> Self {
        RGB(
            spec_gamma(self.0 as int) as i64,
            spec_gamma(self.1 as int) as i64,
            spec_gamma(self.2 as int) as i64,
        )
    }

    pub open spec fn spec_as_bytes(self) -> [u8; 3] {
        [
            spec_as_byte(self.0 as int) as u8,
            spec_as_byte(self.1 as int) as u8,
            spec_as_byte(self.2 as int) as u8,
        ]
    }

    /// Elementwise sum of two colors.
    pub fn add(&self, other: &Self) -> (r: Self)
        ensures
            r == self.spec_add(*other),
    {
        RGB(fadd(self.0, other.0), fadd(self.1, other.1), fadd(self.2, other.2))
    }

    /// Elementwise product of two colors, composing attenuation along a path.
    pub fn mul(&self, other: &Self) -> (r: Self)
        ensures
            r == self.spec_mul(*other),
    {
        RGB(fmul(self.0, other.0), fmul(self.1, other.1), fmul(self.2, other.2))
    }

    /// The color scaled by a fixed-point factor.
    pub fn scale(&self, k: i64) -> (r: Self)
        ensures
            r == self.spec_scale(k as int),
    {
        RGB(fmul(self.0, k), fmul(self.1, k), fmul(self.2, k))
    }

    /// The color divided by a sample count, averaging an accumulated sum.
    pub fn div(&self, n: i64) -> (r: Self)
        requires
            n != 0,
        ensures
            r == self.spec_div_count(n as int),
    {
        RGB(sdiv(self.0, n), sdiv(self.1, n), sdiv(self.2, n))
    }

    /// Tone-maps each channel for a gamma of two: the clamped channel raised
    /// to the power one half.
    pub fn correct_gamma(&self) -> (r: Self)
        ensures
            r == self.spec_correct_gamma(),
    {
        RGB(fsqrt(clamp01(self.0)), fsqrt(clamp01(self.1)), fsqrt(clamp01(self.2)))
    }

    /// Return the three channels converted from `0..=ONE` to `0..=255`.
    pub fn as_bytes(&self) -> (r: [u8; 3])
        ensures
            r == self.spec_as_bytes(),
    {
        [byte_of(self.0), byte_of(self.1), byte_of(self.2)]
    }
}

/// One channel converted to a byte.
fn byte_of(c: i64) -> (r: u8)
    ensures
        r == spec_as_byte(c as int),
{
    let q = sdiv(c, 256);
    if q < 0 {
        0
    } else if q > 255 {
        255
    } else {
        q as u8
    }
}

} // verus!
