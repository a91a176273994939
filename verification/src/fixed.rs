//! Fixed-point arithmetic for the simulation.
//!
//! Every spatial quantity (positions, velocities, speeds, friction and
//! strength factors) is an `i64` counting millionths of a unit. Each
//! operation computes the exact mathematical result, rounds it toward zero
//! and saturates at the bounds of `i64`, so every operation is total.

use vstd::prelude::*;

verus! {

/// How many fixed-point steps make one unit.
pub const SCALE: i64 = 1_000_000;

/// The nearest `i64` to `x`.
pub open spec fn clamp(x: int) -> i64 {
    if x < i64::MIN {
        i64::MIN
    } else if x > i64::MAX {
        i64::MAX
    } else {
        x as i64
    }
}

/// The quotient `a / b` rounded toward zero, for a positive `b`.
pub open spec fn trunc_div(a: int, b: int) -> int {
    if a >= 0 {
        a / b
    } else {
        -((-a) / b)
    }
}

/// Saturating sum.
pub open spec fn spec_fx_add(a: i64, b: i64) -> i64 {
    clamp(a + b)
}

/// Saturating difference.
pub open spec fn spec_fx_sub(a: i64, b: i64) -> i64 {
    clamp(a - b)
}

/// Fixed-point product: `a * b / SCALE`, rounded toward zero, saturating.
pub open spec fn spec_fx_mul(a: i64, b: i64) -> i64 {
    clamp(trunc_div(a * b, SCALE as int))
}

/// `a * b / c` rounded toward zero and saturating; zero when `c` is not
/// positive, so that a division by a vanishing length yields no motion.
pub open spec fn spec_fx_mul_div(a: i64, b: i64, c: i64) -> i64 {
    if c <= 0 {
        0
    } else {
        clamp(trunc_div(a * b, c as int))
    }
}

/// `r` is the integer square root of `n`: the largest `r` with `r * r <= n`.
pub open spec fn is_isqrt(n: int, r: int) -> bool {
    0 <= r && r * r <= n < (r + 1) * (r + 1)
}

/// The integer square root of a non-negative `n`.
pub open spec fn isqrt(n: int) -> int {
    choose|r: int| is_isqrt(n, r)
}

/// Squaring is monotone on the non-negative integers.
pub proof fn lemma_square_monotone(a: int, b: int)
    requires
        0 <= a <= b,
    ensures
        a * a <= b * b,
{
    assert(a * a <= b * b) by (nonlinear_arith)
        requires
            0 <= a <= b,
    ;
}

/// Every non-negative integer has an integer square root.
pub proof fn lemma_isqrt_exists(n: int)
    requires
        n >= 0,
    ensures
        is_isqrt(n, isqrt(n)),
    decreases n,
{
    if n == 0 {
        assert(is_isqrt(0, 0));
    } else {
        lemma_isqrt_exists(n - 1);
        let r = isqrt(n - 1);
        if (r + 1) * (r + 1) <= n {
            assert((r + 2) * (r + 2) > (r + 1) * (r + 1)) by (nonlinear_arith)
                requires
                    r >= 0,
            ;
            assert(is_isqrt(n, r + 1));
        } else {
            assert(is_isqrt(n, r));
        }
    }
}

/// The integer square root is unique.
pub proof fn lemma_isqrt_unique(n: int, r: int)
    requires
        is_isqrt(n, r),
    ensures
        isqrt(n) == r,
{
    let s = isqrt(n);
    assert(is_isqrt(n, s));
    if s < r {
        lemma_square_monotone(s + 1, r);
    } else if r < s {
        lemma_square_monotone(r + 1, s);
    }
}

/// The integer square root of a perfect square is its root.
pub proof fn lemma_isqrt_of_square(r: int)
    requires
        r >= 0,
    ensures
        isqrt(r * r) == r,
{
    assert((r + 1) * (r + 1) > r * r) by (nonlinear_arith)
        requires
            r >= 0,
    ;
    lemma_isqrt_unique(r * r, r);
}

/// The product of two `i64` values fits well inside an `i128`.
pub proof fn lemma_product_bounds(a: i64, b: i64)
    ensures
        -0x4000_0000_0000_0000_0000_0000_0000_0000 <= a * b
            <= 0x4000_0000_0000_0000_0000_0000_0000_0000,
{
    assert(-0x4000_0000_0000_0000_0000_0000_0000_0000 <= a * b
        <= 0x4000_0000_0000_0000_0000_0000_0000_0000) by (nonlinear_arith)
        requires
            -0x8000_0000_0000_0000 <= a <= 0x7fff_ffff_ffff_ffff,
            -0x8000_0000_0000_0000 <= b <= 0x7fff_ffff_ffff_ffff,
    ;
}

/// Whether the fixed-point product of `a` and `b` is short of saturation.
pub open spec fn fx_mul_fits(a: i64, b: i64) -> bool {
    i64::MIN <= trunc_div(a * b, SCALE as int) <= i64::MAX
}

/// Short of saturation, a fixed-point product is the exact product over
/// [`SCALE`], rounded toward zero: it is off by less than one step, and
/// never past the exact value.
pub proof fn lemma_fx_mul_error(a: i64, b: i64)
    requires
        fx_mul_fits(a, b),
    ensures
        -SCALE < spec_fx_mul(a, b) * SCALE - a * b < SCALE,
        a * b >= 0 ==> 0 <= spec_fx_mul(a, b) * SCALE <= a * b,
        a * b <= 0 ==> a * b <= spec_fx_mul(a, b) * SCALE <= 0,
{
    let p = a * b;
    let s = SCALE as int;
    if p >= 0 {
        assert(p == s * (p / s) + p % s && 0 <= p % s < s) by (nonlinear_arith)
            requires
                s > 0,
        ;
    } else {
        let n = -p;
        assert(n == s * (n / s) + n % s && 0 <= n % s < s) by (nonlinear_arith)
            requires
                s > 0,
        ;
    }
}

/// Narrows a wide intermediate result to `i64`, saturating.
pub fn saturate(x: i128) -> (r: i64)
    ensures
        r == clamp(x as int),
{
    if x < i64::MIN as i128 {
        i64::MIN
    } else if x > i64::MAX as i128 {
        i64::MAX
    } else {
        x as i64
    }
}

/// Saturating fixed-point sum.
#[verifier::when_used_as_spec(spec_fx_add)]
pub fn fx_add(a: i64, b: i64) -> (r: i64)
    ensures
        r == spec_fx_add(a, b),
{
    saturate(a as i128 + b as i128)
}

/// Saturating fixed-point difference.
#[verifier::when_used_as_spec(spec_fx_sub)]
pub fn fx_sub(a: i64, b: i64) -> (r: i64)
    ensures
        r == spec_fx_sub(a, b),
{
    saturate(a as i128 - b as i128)
}

/// Fixed-point product, rounded toward zero and saturating.
#[verifier::when_used_as_spec(spec_fx_mul)]
pub fn fx_mul(a: i64, b: i64) -> (r: i64)
    ensures
        r == spec_fx_mul(a, b),
{
    proof {
        lemma_product_bounds(a, b);
    }
    let wide: i128 = (a as i128) * (b as i128);
    saturate(wide / (SCALE as i128))
}

/// `a * b / c`, rounded toward zero and saturating; zero when `c <= 0`.
#[verifier::when_used_as_spec(spec_fx_mul_div)]
pub fn fx_mul_div(a: i64, b: i64, c: i64) -> (r: i64)
    ensures
        r == spec_fx_mul_div(a, b, c),
{
    if c <= 0 {
        return 0;
    }
    proof {
        lemma_product_bounds(a, b);
    }
    let wide: i128 = (a as i128) * (b as i128);
    saturate(wide / (c as i128))
}

/// The integer square root of `n`, by bisection.
pub fn isqrt_u128(n: u128) -> (r: u64)
    ensures
        is_isqrt(n as int, r as int),
        r == isqrt(n as int),
{
    let mut lo: u128 = 0;
    let mut hi: u128 = 0x1_0000_0000_0000_0000;
    assert(0x1_0000_0000_0000_0000int * 0x1_0000_0000_0000_0000int
        == 0x1_0000_0000_0000_0000_0000_0000_0000_0000int) by (nonlinear_arith);
    while hi - lo > 1
        invariant
            lo < hi <= 0x1_0000_0000_0000_0000,
            lo * lo <= n < hi * hi,
        decreases hi - lo,
    {
        let mid: u128 = lo + (hi - lo) / 2;
        assert(mid * mid <= 0xffff_ffff_ffff_ffff_ffff_ffff_ffff_ffff) by (nonlinear_arith)
            requires
                0 <= mid <= 0xffff_ffff_ffff_ffff,
        ;
        if mid * mid <= n {
            lo = mid;
        } else {
            hi = mid;
        }
    }
    proof {
        lemma_isqrt_unique(n as int, lo as int);
    }
    lo as u64
}

} // verus!
