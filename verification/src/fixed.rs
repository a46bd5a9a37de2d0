use vstd::prelude::*;

verus! {

/// Scale of the fixed-point scalars used throughout the library: a scalar
/// `x: i64` stands for the real number `x / ONE`, carrying 16 fractional bits.
pub const ONE: i64 = 65536;

/// Largest magnitude a scalar may take. Arithmetic saturates at this bound
/// instead of wrapping, so every operation is total.
pub const MAX_FIXED: i64 = i64::MAX;

/// Saturation: values beyond the representable range collapse to the range's edge.
pub open spec fn clip(x: int) -> int {
    if x > MAX_FIXED {
        MAX_FIXED as int
    } else if x < -MAX_FIXED {
        -(MAX_FIXED as int)
    } else {
        x
    }
}

/// Quotient rounded toward zero, the rounding that the machine division performs.
pub open spec fn tdiv(a: int, b: int) -> int
    recommends
        b != 0,
{
    let q = (if a >= 0 { a } else { -a }) / (if b >= 0 { b } else { -b });
    if (a >= 0) == (b >= 0) {
        q
    } else {
        -q
    }
}

pub open spec fn spec_fadd(a: int, b: int) -> int {
    clip(a + b)
}

pub open spec fn spec_fsub(a: int, b: int) -> int {
    clip(a - b)
}

pub open spec fn spec_fneg(a: int) -> int {
    clip(-a)
}

pub open spec fn spec_fmul(a: int, b: int) -> int {
    clip(tdiv(a * b, ONE as int))
}

pub open spec fn spec_fdiv(a: int, b: int) -> int
    recommends
        b != 0,
{
    clip(tdiv(a * (ONE as int), b))
}

pub open spec fn spec_sdiv(a: int, b: int) -> int
    recommends
        b != 0,
{
    clip(tdiv(a, b))
}

pub open spec fn spec_clamp01(x: int) -> int {
    if x < 0 {
        0
    } else if x > ONE {
        ONE as int
    } else {
        x
    }
}

/// Saturating sum of two scalars.
pub fn fadd(a: i64, b: i64) -> (r: i64)
    ensures
        r == spec_fadd(a as int, b as int),
{
    let s: i128 = (a as i128) + (b as i128);
    if s > i64::MAX as i128 {
        i64::MAX
    } else if s < -(i64::MAX as i128) {
        -i64::MAX
    } else {
        s as i64
    }
}

/// Saturating difference of two scalars.
pub fn fsub(a: i64, b: i64) -> (r: i64)
    ensures
        r == spec_fsub(a as int, b as int),
{
    let s: i128 = (a as i128) - (b as i128);
    if s > i64::MAX as i128 {
        i64::MAX
    } else if s < -(i64::MAX as i128) {
        -i64::MAX
    } else {
        s as i64
    }
}

/// Saturating negation of a scalar.
pub fn fneg(a: i64) -> (r: i64)
    ensures
        r == spec_fneg(a as int),
{
    if a == i64::MIN {
        i64::MAX
    } else {
        -a
    }
}

/// Saturating fixed-point product: the scaled quotient of the wide product.
pub fn fmul(a: i64, b: i64) -> (r: i64)
    ensures
        r == spec_fmul(a as int, b as int),
{
    proof {
        assert((a as i128) * (b as i128) <= 0x4000_0000_0000_0000_0000_0000_0000_0000i128
            && (a as i128) * (b as i128) >= -0x4000_0000_0000_0000_0000_0000_0000_0000i128)
            by (nonlinear_arith)
            requires
                -0x8000_0000_0000_0000i128 <= a <= 0x7fff_ffff_ffff_ffffi128,
                -0x8000_0000_0000_0000i128 <= b <= 0x7fff_ffff_ffff_ffffi128,
        ;
    }
    let p: i128 = (a as i128) * (b as i128);
    let q: i128 = p / 65536;
    if q > i64::MAX as i128 {
        i64::MAX
    } else if q < -(i64::MAX as i128) {
        -i64::MAX
    } else {
        q as i64
    }
}

/// Saturating fixed-point quotient.
pub fn fdiv(a: i64, b: i64) -> (r: i64)
    requires
        b != 0,
    ensures
        r == spec_fdiv(a as int, b as int),
{
    let n: i128 = (a as i128) * 65536;
    let bb: i128 = if b < 0 { -(b as i128) } else { b as i128 };
    let q0: i128 = if n < 0 { -((-n) / bb) } else { n / bb };
    let q: i128 = if b < 0 { -q0 } else { q0 };
    if q > i64::MAX as i128 {
        i64::MAX
    } else if q < -(i64::MAX as i128) {
        -i64::MAX
    } else {
        q as i64
    }
}

/// Saturating integer quotient of two scalars (no rescaling).
pub fn sdiv(a: i64, b: i64) -> (r: i64)
    requires
        b != 0,
    ensures
        r == spec_sdiv(a as int, b as int),
{
    let n: i128 = a as i128;
    let bb: i128 = if b < 0 { -(b as i128) } else { b as i128 };
    let q0: i128 = if n < 0 { -((-n) / bb) } else { n / bb };
    let q: i128 = if b < 0 { -q0 } else { q0 };
    if q > i64::MAX as i128 {
        i64::MAX
    } else if q < -(i64::MAX as i128) {
        -i64::MAX
    } else {
        q as i64
    }
}

pub open spec fn spec_fabs(a: int) -> int {
    if a < 0 {
        clip(-a)
    } else {
        a
    }
}

/// Magnitude of a scalar, saturating at the representable bound.
pub fn fabs(a: i64) -> (r: i64)
    ensures
        r == spec_fabs(a as int),
{
    if a < 0 {
        fneg(a)
    } else {
        a
    }
}

/// A scalar clamped into the nominal color range `[0, ONE]`.
pub fn clamp01(x: i64) -> (r: i64)
    ensures
        r == spec_clamp01(x as int),
{
    if x < 0 {
        0
    } else if x > ONE {
        ONE
    } else {
        x
    }
}

/// Division with truncation toward zero keeps the order of its numerators.
pub proof fn lemma_tdiv_ordered(a1: int, a2: int, b: int)
    requires
        a1 <= a2,
        b > 0,
    ensures
        tdiv(a1, b) <= tdiv(a2, b),
{
    if a1 >= 0 {
        vstd::arithmetic::div_mod::lemma_div_is_ordered(a1, a2, b);
    } else if a2 < 0 {
        vstd::arithmetic::div_mod::lemma_div_is_ordered(-a2, -a1, b);
    } else {
        vstd::arithmetic::div_mod::lemma_div_pos_is_pos(-a1, b);
        vstd::arithmetic::div_mod::lemma_div_pos_is_pos(a2, b);
    }
}

/// The scaled quotient keeps the order of its numerators.
pub proof fn lemma_fdiv_ordered(a1: int, a2: int, b: int)
    requires
        a1 <= a2,
        b > 0,
    ensures
        spec_fdiv(a1, b) <= spec_fdiv(a2, b),
{
    lemma_tdiv_ordered(a1 * ONE, a2 * ONE, b);
}

/// Multiplying by plus or minus `ONE`, or by zero, is exact.
pub proof fn lemma_fmul_unit(a: int)
    ensures
        spec_fmul(a, 65536) == clip(a),
        spec_fmul(65536, a) == clip(a),
        spec_fmul(a, -65536) == clip(-a),
        spec_fmul(-65536, a) == clip(-a),
        spec_fmul(a, 0) == 0,
        spec_fmul(0, a) == 0,
{
    if a >= 0 {
        vstd::arithmetic::div_mod::lemma_div_multiples_vanish(a, 65536);
    } else {
        vstd::arithmetic::div_mod::lemma_div_multiples_vanish(-a, 65536);
    }
    assert(a * 65536 == 65536 * a) by (nonlinear_arith);
    assert(a * -65536 == -(a * 65536)) by (nonlinear_arith);
    assert(-65536 * a == -(a * 65536)) by (nonlinear_arith);
    assert(a * 0 == 0) by (nonlinear_arith);
    assert(0 * a == 0) by (nonlinear_arith);
}

/// Integer square root: the greatest `r` with `r * r <= n`.
pub open spec fn spec_isqrt(n: nat) -> nat
    decreases n,
{
    if n == 0 {
        0
    } else {
        let r = spec_isqrt((n - 1) as nat);
        if (r + 1) * (r + 1) <= n {
            r + 1
        } else {
            r
        }
    }
}

pub proof fn lemma_isqrt_bounds(n: nat)
    ensures
        spec_isqrt(n) * spec_isqrt(n) <= n,
        n < (spec_isqrt(n) + 1) * (spec_isqrt(n) + 1),
    decreases n,
{
    if n > 0 {
        lemma_isqrt_bounds((n - 1) as nat);
        let r = spec_isqrt((n - 1) as nat);
        assert(r * r <= n - 1 && n - 1 < (r + 1) * (r + 1));
        if (r + 1) * (r + 1) <= n {
            assert(spec_isqrt(n) == r + 1);
            assert((r + 2) * (r + 2) > (r + 1) * (r + 1)) by (nonlinear_arith)
                requires
                    r >= 0,
            ;
            assert(n <= (r + 1) * (r + 1));
            assert(spec_isqrt(n) * spec_isqrt(n) <= n);
            assert((spec_isqrt(n) + 1) * (spec_isqrt(n) + 1) == (r + 2) * (r + 2));
            assert(n < (spec_isqrt(n) + 1) * (spec_isqrt(n) + 1));
        } else {
            assert(spec_isqrt(n) == r);
            assert(spec_isqrt(n) * spec_isqrt(n) <= n);
            assert(n < (spec_isqrt(n) + 1) * (spec_isqrt(n) + 1));
        }
    } else {
        assert(spec_isqrt(n) == 0);
        assert((spec_isqrt(n) + 1) * (spec_isqrt(n) + 1) == 1nat) by (nonlinear_arith)
            requires
                spec_isqrt(n) == 0,
        ;
    }
}

pub proof fn lemma_isqrt_unique(n: nat, r: nat)
    requires
        r * r <= n,
        n < (r + 1) * (r + 1),
    ensures
        r == spec_isqrt(n),
{
    lemma_isqrt_bounds(n);
    let s = spec_isqrt(n);
    if r < s {
        assert((r + 1) * (r + 1) <= s * s) by (nonlinear_arith)
            requires
                0 <= r,
                r + 1 <= s,
        ;
    }
    if s < r {
        assert((s + 1) * (s + 1) <= r * r) by (nonlinear_arith)
            requires
                0 <= s,
                s + 1 <= r,
        ;
    }
}

/// Square root of a nonnegative scalar, in the same fixed-point scale.
pub open spec fn spec_fsqrt(x: int) -> int
    recommends
        x >= 0,
{
    spec_isqrt((x * ONE) as nat) as int
}

/// Square root of a nonnegative scalar, exact over the scaled integers.
pub fn fsqrt(x: i64) -> (r: i64)
    requires
        x >= 0,
    ensures
        r == spec_fsqrt(x as int),
        r >= 0,
{
    let n: u128 = (x as u128) * 65536;
    let mut lo: u128 = 0;
    let mut hi: u128 = 0x1_0000_0000_0000;
    proof {
        assert(n < 0x1_0000_0000_0000u128 * 0x1_0000_0000_0000u128);
    }
    while lo + 1 < hi
        invariant
            (lo as int) * (lo as int) <= n as int,
            (n as int) < (hi as int) * (hi as int),
            lo < hi,
            hi <= 0x1_0000_0000_0000,
        decreases hi - lo,
    {
        let mid: u128 = lo + (hi - lo) / 2;
        proof {
            assert(mid * mid < 0x1_0000_0000_0000_0000_0000_0000u128) by (nonlinear_arith)
                requires
                    0 <= mid < 0x1_0000_0000_0000u128,
            ;
        }
        if mid * mid <= n {
            lo = mid;
        } else {
            hi = mid;
        }
    }
    proof {
        lemma_isqrt_unique(n as nat, lo as nat);
    }
    lo as i64
}

/// Radians per degree, as a fixed-point scalar.
pub const RAD_PER_DEG: i64 = 1144;

/// A quarter turn in radians, as a fixed-point scalar.
pub const HALF_TURN: i64 = 102944;

/// Truncated Taylor polynomial for the sine of an angle given in radians.
pub open spec fn spec_sin_poly(y: int) -> int {
    let y2 = spec_fmul(y, y);
    let y3 = spec_fmul(y2, y);
    let y5 = spec_fmul(y3, y2);
    let y7 = spec_fmul(y5, y2);
    spec_fsub(spec_fadd(spec_fsub(y, spec_sdiv(y3, 6)), spec_sdiv(y5, 120)), spec_sdiv(y7, 5040))
}

/// Sine of an angle in radians, by a degree-seven Taylor polynomial.
pub fn sin_poly(y: i64) -> (r: i64)
    ensures
        r == spec_sin_poly(y as int),
{
    let y2 = fmul(y, y);
    let y3 = fmul(y2, y);
    let y5 = fmul(y3, y2);
    let y7 = fmul(y5, y2);
    let a = fsub(y, sdiv(y3, 6));
    let b = fadd(a, sdiv(y5, 120));
    fsub(b, sdiv(y7, 5040))
}

/// Tangent of half the given angle, the angle in fixed-point degrees.
/// Near the vertical asymptote the denominator is held at one grid step,
/// so the result saturates instead of dividing by zero.
pub open spec fn spec_tan_half_deg(v: int) -> int {
    let rad = spec_fmul(spec_sdiv(v, 2), RAD_PER_DEG as int);
    let s = spec_sin_poly(rad);
    let c0 = spec_sin_poly(spec_fsub(HALF_TURN as int, rad));
    let c = if c0 < 1 { 1 } else { c0 };
    spec_fdiv(s, c)
}

/// Tangent of half the given angle in fixed-point degrees.
pub fn tan_half_deg(v: i64) -> (r: i64)
    ensures
        r == spec_tan_half_deg(v as int),
{
    let rad = fmul(sdiv(v, 2), RAD_PER_DEG);
    let s = sin_poly(rad);
    let c0 = sin_poly(fsub(HALF_TURN, rad));
    let c = if c0 < 1 { 1 } else { c0 };
    fdiv(s, c)
}

} // verus!
