//! Fixed-point scalars.
//!
//! A scalar is an `i64` that counts millionths of a unit. Sums, products and
//! quotients are computed exactly in a wider type, rounded toward zero and
//! then saturated to the `i64` range, so every operation is total.

use vstd::prelude::*;

verus! {

/// The fixed-point representation of `1`.
pub const SCALE: i64 = 1_000_000;

/// Whether `x` is a scalar: lies in the `i64` range.
pub open spec fn representable(x: int) -> bool {
    i64::MIN <= x <= i64::MAX
}

/// The nearest `i64` to `x`.
pub open spec fn saturate(x: int) -> i64 {
    if x < i64::MIN {
        i64::MIN
    } else if x > i64::MAX {
        i64::MAX
    } else {
        x as i64
    }
}

/// The quotient of `a` by `b`, rounded toward zero.
pub open spec fn trunc_div(a: int, b: int) -> int
    recommends
        b != 0,
{
    if a >= 0 {
        a / b
    } else {
        -((-a) / b)
    }
}

/// `a + b`, saturated.
pub open spec fn fx_sum(a: i64, b: i64) -> i64 {
    saturate(a + b)
}

/// `a - b`, saturated.
pub open spec fn fx_difference(a: i64, b: i64) -> i64 {
    saturate(a - b)
}

/// `-a`, saturated.
pub open spec fn fx_negation(a: i64) -> i64 {
    saturate(-a)
}

/// `|a|`, saturated.
pub open spec fn fx_magnitude(a: i64) -> i64 {
    if a >= 0 {
        a
    } else {
        saturate(-a)
    }
}

/// The product of two scalars: `a * b / SCALE`, rounded toward zero and saturated.
pub open spec fn fx_product(a: i64, b: i64) -> i64 {
    saturate(trunc_div(a * b, SCALE as int))
}

/// The quotient of a scalar by a divisor of any size: `a * SCALE / b`, rounded
/// toward zero and saturated; zero when `b` is zero.
pub open spec fn fx_quotient(a: i64, b: int) -> i64 {
    if b == 0 {
        0
    } else {
        saturate(trunc_div(a * SCALE, b))
    }
}

/// Half of `a`, rounded toward zero.
pub open spec fn fx_half(a: i64) -> i64 {
    trunc_div(a as int, 2) as i64
}

/// `a` divided by the whole number `n`, rounded toward zero; zero when `n` is zero.
pub open spec fn fx_share(a: i64, n: u32) -> i64 {
    if n == 0 {
        0
    } else {
        trunc_div(a as int, n as int) as i64
    }
}

/// `n` times `a`, saturated.
pub open spec fn fx_multiple(a: i64, n: usize) -> i64 {
    saturate(a * n)
}

/// `x` confined to `[lo, hi]`; `lo` wins where the interval is empty.
pub open spec fn fx_clamped(x: i64, lo: i64, hi: i64) -> i64 {
    if x < lo {
        lo
    } else if x > hi {
        hi
    } else {
        x
    }
}

/// Rounding toward zero never increases the magnitude.
pub proof fn lemma_trunc_div_bound(a: int, b: int)
    requires
        b != 0,
    ensures
        a >= 0 ==> -a <= trunc_div(a, b) <= a,
        a <= 0 ==> a <= trunc_div(a, b) <= -a,
{
    if a >= 0 {
        assert(-a <= a / b <= a) by (nonlinear_arith)
            requires
                a >= 0,
                b != 0,
        ;
    } else {
        let m = -a;
        assert(-m <= m / b <= m) by (nonlinear_arith)
            requires
                m >= 0,
                b != 0,
        ;
    }
}

/// Whether `r` is the integer square root of `n`.
pub open spec fn is_int_sqrt(n: int, r: int) -> bool {
    0 <= r && r * r <= n < (r + 1) * (r + 1)
}

/// The integer square root of `n`: the largest `r` with `r * r <= n`.
pub open spec fn int_sqrt(n: nat) -> nat {
    choose|r: nat| is_int_sqrt(n as int, r as int)
}

/// Every natural number has an integer square root.
pub proof fn lemma_int_sqrt_exists(n: nat)
    ensures
        is_int_sqrt(n as int, int_sqrt(n) as int),
    decreases n,
{
    if n == 0 {
        assert(is_int_sqrt(0, 0));
    } else {
        lemma_int_sqrt_exists((n - 1) as nat);
        let r = int_sqrt((n - 1) as nat);
        if (r + 1) * (r + 1) <= n {
            assert((r + 2) * (r + 2) > n) by (nonlinear_arith)
                requires
                    n - 1 < (r + 1) * (r + 1),
                    r >= 0,
            ;
            assert(is_int_sqrt(n as int, (r + 1) as int));
        } else {
            assert(is_int_sqrt(n as int, r as int));
        }
    }
}

/// At most one number is the integer square root of `n`.
pub proof fn lemma_int_sqrt_unique(n: int, r: int, s: int)
    requires
        is_int_sqrt(n, r),
        is_int_sqrt(n, s),
    ensures
        r == s,
{
    if r < s {
        assert((r + 1) * (r + 1) <= s * s) by (nonlinear_arith)
            requires
                0 <= r < s,
        ;
    } else if s < r {
        assert((s + 1) * (s + 1) <= r * r) by (nonlinear_arith)
            requires
                0 <= s < r,
        ;
    }
}

/// Saturates a wide integer to the scalar range.
pub fn saturate_wide(x: i128) -> (r: i64)
    ensures
        r == saturate(x as int),
{
    if x < i64::MIN as i128 {
        i64::MIN
    } else if x > i64::MAX as i128 {
        i64::MAX
    } else {
        x as i64
    }
}

/// Adds two scalars; the sum saturates.
pub fn fx_add(a: i64, b: i64) -> (r: i64)
    ensures
        r == fx_sum(a, b),
{
    saturate_wide(a as i128 + b as i128)
}

/// Subtracts `b` from `a`; the difference saturates.
pub fn fx_sub(a: i64, b: i64) -> (r: i64)
    ensures
        r == fx_difference(a, b),
{
    saturate_wide(a as i128 - b as i128)
}

/// Negates a scalar; the negative of the lowest scalar is the highest.
pub fn fx_neg(a: i64) -> (r: i64)
    ensures
        r == fx_negation(a),
{
    saturate_wide(-(a as i128))
}

/// Takes the absolute value; that of the lowest scalar is the highest scalar.
pub fn fx_abs(a: i64) -> (r: i64)
    ensures
        r == fx_magnitude(a),
{
    if a >= 0 {
        a
    } else {
        saturate_wide(-(a as i128))
    }
}

/// Multiplies two scalars, rounding toward zero; the product saturates.
pub fn fx_mul(a: i64, b: i64) -> (r: i64)
    ensures
        r == fx_product(a, b),
{
    assert(-0x4000_0000_0000_0000_0000_0000_0000_0000 <= a * b
        <= 0x4000_0000_0000_0000_0000_0000_0000_0000) by (nonlinear_arith)
        requires
            -0x8000_0000_0000_0000 <= a <= 0x8000_0000_0000_0000,
            -0x8000_0000_0000_0000 <= b <= 0x8000_0000_0000_0000,
    ;
    let wide: i128 = (a as i128) * (b as i128);
    saturate_wide(wide / (SCALE as i128))
}

/// Divides a scalar by a divisor of any size, rounding toward zero; the
/// quotient saturates, and is zero for a zero divisor.
pub fn fx_div_wide(a: i64, b: i128) -> (r: i64)
    ensures
        r == fx_quotient(a, b as int),
{
    if b == 0 {
        0
    } else {
        assert(-0x8000_0000_0000_0000 * 1_000_000 <= a * SCALE <= 0x8000_0000_0000_0000
            * 1_000_000) by (nonlinear_arith)
            requires
                -0x8000_0000_0000_0000 <= a <= 0x8000_0000_0000_0000,
                SCALE == 1_000_000,
        ;
        let wide: i128 = (a as i128) * (SCALE as i128);
        proof {
            lemma_trunc_div_bound(wide as int, b as int);
        }
        saturate_wide(wide / b)
    }
}

/// Divides `a` by `b`, rounding toward zero; the quotient saturates, and is
/// zero for a zero divisor.
pub fn fx_div(a: i64, b: i64) -> (r: i64)
    ensures
        r == fx_quotient(a, b as int),
{
    fx_div_wide(a, b as i128)
}

/// Halves a scalar, rounding toward zero.
pub fn fx_halve(a: i64) -> (r: i64)
    ensures
        r == fx_half(a),
{
    a / 2
}

/// Divides a scalar by a whole number, rounding toward zero; zero for a zero
/// divisor.
pub fn fx_div_count(a: i64, n: u32) -> (r: i64)
    ensures
        r == fx_share(a, n),
{
    if n == 0 {
        0
    } else {
        a / (n as i64)
    }
}

/// Multiplies a scalar by a whole number; the product saturates.
pub fn fx_mul_count(a: i64, n: usize) -> (r: i64)
    ensures
        r == fx_multiple(a, n),
{
    assert(-0x8000_0000_0000_0000_0000_0000_0000_0000 < a * n
        < 0x8000_0000_0000_0000_0000_0000_0000_0000) by (nonlinear_arith)
        requires
            -0x8000_0000_0000_0000 <= a < 0x8000_0000_0000_0000,
            0 <= n <= 0xffff_ffff_ffff_ffff,
    ;
    saturate_wide((a as i128) * (n as i128))
}

/// Confines `x` to `[lo, hi]`.
pub fn fx_clamp(x: i64, lo: i64, hi: i64) -> (r: i64)
    ensures
        r == fx_clamped(x, lo, hi),
{
    if x < lo {
        lo
    } else if x > hi {
        hi
    } else {
        x
    }
}

/// Computes the integer square root by bisection.
pub fn fx_int_sqrt(n: u128) -> (r: u64)
    ensures
        r == int_sqrt(n as nat),
{
    let mut lo: u128 = 0;
    let mut hi: u128 = 0x1_0000_0000_0000_0000;
    assert(n < hi * hi) by (nonlinear_arith)
        requires
            n <= 0xffff_ffff_ffff_ffff_ffff_ffff_ffff_ffff,
            hi == 0x1_0000_0000_0000_0000,
    ;
    while hi - lo > 1
        invariant
            lo < hi <= 0x1_0000_0000_0000_0000,
            lo * lo <= n < hi * hi,
        decreases hi - lo,
    {
        let mid: u128 = lo + (hi - lo) / 2;
        assert(mid * mid <= 0xffff_ffff_ffff_ffff_ffff_ffff_ffff_ffff) by (nonlinear_arith)
            requires
                mid < 0x1_0000_0000_0000_0000,
        ;
        if mid * mid <= n {
            lo = mid;
        } else {
            hi = mid;
        }
    }
    proof {
        lemma_int_sqrt_exists(n as nat);
        lemma_int_sqrt_unique(n as int, lo as int, int_sqrt(n as nat) as int);
    }
    lo as u64
}

} // verus!
