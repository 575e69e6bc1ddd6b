//! Fixed-point scalar arithmetic in milli-units.
//!
//! A scalar `x` stands for the real number `x / 1000`. All operations
//! saturate at the `i64` range instead of wrapping, and every executable
//! function is proved to return exactly what its spec-level mirror computes,
//! so evaluation is pure and deterministic.

use vstd::prelude::*;

verus! {

/// Number of fixed-point steps per whole unit.
pub const SCALE: i64 = 1000;

/// One full turn (two pi) in milliradians.
pub const TAU_MILLI: i64 = 6283;

/// Half a turn (pi) in milliradians.
pub const PI_MILLI: i64 = 3142;

/// A quarter turn (pi over two) in milliradians.
pub const HALF_PI_MILLI: i64 = 1571;

/// Saturate an unbounded integer into the `i64` range.
pub open spec fn sat64(x: int) -> int {
    if x > i64::MAX {
        i64::MAX as int
    } else if x < i64::MIN {
        i64::MIN as int
    } else {
        x
    }
}

/// Division that truncates toward zero (the behaviour of `/` on Rust
/// integers), for a positive divisor.
pub open spec fn tdiv(a: int, b: int) -> int
    recommends
        b > 0,
{
    if a >= 0 {
        a / b
    } else {
        -((-a) / b)
    }
}

/// Spec mirror of [`fx_mul`]: fixed-point product, truncated, saturated.
pub open spec fn spec_fx_mul(a: int, b: int) -> int {
    sat64(tdiv(a * b, SCALE as int))
}

/// Spec mirror of [`fx_div`]: fixed-point quotient, truncated, saturated;
/// zero when the divisor is zero.
pub open spec fn spec_fx_div(a: int, b: int) -> int {
    if b == 0 {
        0
    } else if b > 0 {
        sat64(tdiv(a * SCALE, b))
    } else {
        sat64(tdiv(-(a * SCALE), -b))
    }
}

/// Saturating addition.
pub fn sat_add(a: i64, b: i64) -> (r: i64)
    ensures
        r == sat64(a + b),
{
    if a >= 0 && b > i64::MAX - a {
        i64::MAX
    } else if a < 0 && b < i64::MIN - a {
        i64::MIN
    } else {
        a + b
    }
}

/// Saturating subtraction.
pub fn sat_sub(a: i64, b: i64) -> (r: i64)
    ensures
        r == sat64(a - b),
{
    if b >= 0 && a < i64::MIN + b {
        i64::MIN
    } else if b < 0 && a > i64::MAX + b {
        i64::MAX
    } else {
        a - b
    }
}

/// Saturating product of two raw (non-fixed) integers.
pub fn sat_mul(a: i64, b: i64) -> (r: i64)
    ensures
        r == sat64(a * b),
{
    proof {
        lemma_i64_product_in_i128(a as int, b as int);
    }
    let p: i128 = (a as i128) * (b as i128);
    if p > i64::MAX as i128 {
        i64::MAX
    } else if p < i64::MIN as i128 {
        i64::MIN
    } else {
        p as i64
    }
}

/// Truncating division of a 128-bit intermediate by a positive divisor,
/// saturated into `i64`.
fn div_sat_i128(a: i128, b: i128) -> (r: i64)
    requires
        b > 0,
        a > i128::MIN,
    ensures
        r == sat64(tdiv(a as int, b as int)),
{
    let q: i128 = if a >= 0 {
        a / b
    } else {
        -((-a) / b)
    };
    assert(q == tdiv(a as int, b as int));
    if q > i64::MAX as i128 {
        i64::MAX
    } else if q < i64::MIN as i128 {
        i64::MIN
    } else {
        q as i64
    }
}

/// Fixed-point multiplication: `a * b` in milli-units.
pub fn fx_mul(a: i64, b: i64) -> (r: i64)
    ensures
        r == spec_fx_mul(a as int, b as int),
{
    proof {
        lemma_i64_product_in_i128(a as int, b as int);
    }
    let p: i128 = (a as i128) * (b as i128);
    div_sat_i128(p, SCALE as i128)
}

/// The product of two `i64` values stays strictly inside the `i128` range.
proof fn lemma_i64_product_in_i128(a: int, b: int)
    requires
        i64::MIN <= a <= i64::MAX,
        i64::MIN <= b <= i64::MAX,
    ensures
        i128::MIN < a * b < i128::MAX,
{
    assert(i128::MIN < a * b < i128::MAX) by (nonlinear_arith)
        requires
            -0x8000000000000000 <= a <= 0x7fffffffffffffff,
            -0x8000000000000000 <= b <= 0x7fffffffffffffff,
    ;
}

/// Fixed-point division: `a / b` in milli-units; zero when `b` is zero.
pub fn fx_div(a: i64, b: i64) -> (r: i64)
    ensures
        r == spec_fx_div(a as int, b as int),
{
    proof {
        lemma_i64_product_in_i128(a as int, SCALE as int);
    }
    if b == 0 {
        0
    } else if b > 0 {
        let p: i128 = (a as i128) * (SCALE as i128);
        div_sat_i128(p, b as i128)
    } else {
        let p: i128 = -((a as i128) * (SCALE as i128));
        div_sat_i128(p, -(b as i128))
    }
}

/// Saturating product of an unsigned count and an `i64` value.
pub fn sat_mul_u64(a: u64, b: i64) -> (r: i64)
    ensures
        r == sat64(a * b),
{
    proof {
        assert(i128::MIN < (a as int) * (b as int) < i128::MAX) by (nonlinear_arith)
            requires
                0 <= a <= 0xffffffffffffffffu64,
                -0x8000000000000000 <= b <= 0x7fffffffffffffff,
        ;
    }
    let p: i128 = (a as i128) * (b as i128);
    if p > i64::MAX as i128 {
        i64::MAX
    } else if p < i64::MIN as i128 {
        i64::MIN
    } else {
        p as i64
    }
}

/// Truncating division of an `i64` by a positive divisor.
pub fn tdiv64(a: i64, b: i64) -> (r: i64)
    requires
        b > 0,
    ensures
        r == tdiv(a as int, b as int),
{
    let r = div_sat_i128(a as i128, b as i128);
    proof {
        assert(a >= 0 ==> 0 <= tdiv(a as int, b as int) <= a) by (nonlinear_arith)
            requires
                b > 0,
        ;
        assert(a < 0 ==> a <= tdiv(a as int, b as int) <= 0) by (nonlinear_arith)
            requires
                b > 0,
        ;
    }
    r
}

/// Truncating division of an `i64` by a positive unsigned count.
pub fn tdiv_u(a: i64, b: u64) -> (r: i64)
    requires
        b > 0,
    ensures
        r == tdiv(a as int, b as int),
{
    let r = div_sat_i128(a as i128, b as i128);
    proof {
        assert(a >= 0 ==> 0 <= tdiv(a as int, b as int) <= a) by (nonlinear_arith)
            requires
                b > 0,
        ;
        assert(a < 0 ==> a <= tdiv(a as int, b as int) <= 0) by (nonlinear_arith)
            requires
                b > 0,
        ;
    }
    r
}

/// Integer square root: the greatest `r` with `r * r <= x`.
pub fn isqrt(x: i64) -> (r: i64)
    requires
        x >= 0,
    ensures
        0 <= r,
        r * r <= x,
        (r + 1) * (r + 1) > x,
{
    let mut lo: i64 = 0;
    // 3037000500^2 > i64::MAX, so the answer is below this bound.
    let mut hi: i64 = 3037000500;
    while lo + 1 < hi
        invariant
            0 <= lo < hi <= 3037000500,
            lo * lo <= x,
            hi * hi > x,
        decreases hi - lo,
    {
        let mid: i64 = lo + (hi - lo) / 2;
        assert(lo < mid < hi);
        proof {
            assert(mid * mid <= 3037000500 * 3037000500) by (nonlinear_arith)
                requires
                    0 <= mid <= 3037000500,
            ;
        }
        let sq: i128 = (mid as i128) * (mid as i128);
        if sq <= x as i128 {
            lo = mid;
        } else {
            hi = mid;
        }
    }
    lo
}

/// Spec mirror of the Bhaskara-style sine kernel on `[0, PI_MILLI]`.
pub open spec fn spec_sin_kernel(x: int) -> int
    recommends
        0 <= x <= PI_MILLI as int,
{
    let y = x * (PI_MILLI as int - x);
    tdiv(16 * y * (SCALE as int), 5 * (PI_MILLI as int) * (PI_MILLI as int) - 4 * y)
}

/// Spec mirror of [`sin_milli`]: reduce to one period, then apply the kernel
/// with odd symmetry on the second half-period.
pub open spec fn spec_sin_milli(x: int) -> int {
    let m = x % (TAU_MILLI as int);
    let p = if m < 0 {
        m + TAU_MILLI as int
    } else {
        m
    };
    if p < PI_MILLI as int {
        spec_sin_kernel(p)
    } else {
        -spec_sin_kernel(p - PI_MILLI as int)
    }
}

/// Rational sine approximation on `[0, PI_MILLI]`, exact integer arithmetic.
fn sin_kernel(x: i64) -> (r: i64)
    requires
        0 <= x <= PI_MILLI,
    ensures
        r == spec_sin_kernel(x as int),
        0 <= r <= SCALE,
{
    proof {
        // x * (pi - x) peaks at (pi / 2)^2, by completing the square.
        assert(0 <= x * (PI_MILLI as int - x) <= 2468041) by (nonlinear_arith)
            requires
                0 <= x <= 3142,
        ;
    }
    let y: i64 = x * (PI_MILLI - x);
    let den: i64 = 5 * PI_MILLI * PI_MILLI - 4 * y;
    let num: i64 = 16 * y * SCALE;
    assert(den >= 39488656);
    assert(num <= 1000 * den);
    let q: i64 = num / den;
    assert(q == tdiv(num as int, den as int));
    proof {
        vstd::arithmetic::div_mod::lemma_div_is_ordered(num as int, 1000 * den as int, den as int);
        assert((1000 * den as int) / (den as int) == 1000) by (nonlinear_arith)
            requires
                den as int >= 1,
        ;
    }
    q
}

/// Deterministic fixed-point sine of an angle in milliradians; the result is
/// in milli-units (so it lies within about `[-SCALE, SCALE]`).
pub fn sin_milli(x: i64) -> (r: i64)
    ensures
        r == spec_sin_milli(x as int),
        -SCALE <= r <= SCALE,
{
    let mut p: i64 = x % TAU_MILLI;
    if p < 0 {
        p = p + TAU_MILLI;
    }
    if p < PI_MILLI {
        sin_kernel(p)
    } else {
        let k = sin_kernel(p - PI_MILLI);
        -k
    }
}

/// Spec mirror of [`cos_milli`].
pub open spec fn spec_cos_milli(x: int) -> int {
    spec_sin_milli(sat64(x + HALF_PI_MILLI as int))
}

/// Deterministic fixed-point cosine of an angle in milliradians.
pub fn cos_milli(x: i64) -> (r: i64)
    ensures
        r == spec_cos_milli(x as int),
        -SCALE <= r <= SCALE,
{
    sin_milli(sat_add(x, HALF_PI_MILLI))
}

} // verus!
