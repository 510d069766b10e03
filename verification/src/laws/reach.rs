//! How long twice the correction of a line is, after rounding.
//!
//! The correction of a line is half the rest length, laid along the direction
//! from its start to its end. Each coordinate is rounded toward zero three
//! times on the way: when the separation is brought to length one, when the
//! direction is scaled to the rest length, and when the result is halved.

use vstd::prelude::*;
use crate::util::fixed::{is_int_sqrt, trunc_div, SCALE};

verus! {

/// The absolute value of `x`.
pub open spec fn magnitude(x: int) -> int {
    if x >= 0 {
        x
    } else {
        -x
    }
}

/// The square of `x`.
pub open spec fn square(x: int) -> int {
    x * x
}

/// Squares grow with the magnitude of what is squared.
pub proof fn lemma_square_le(x: int, y: int)
    requires
        0 <= x <= y,
    ensures
        square(x) <= square(y),
{
    assert(x * x <= y * y) by (nonlinear_arith)
        requires
            0 <= x <= y,
    ;
}

/// Squares grow strictly with the magnitude of what is squared.
pub proof fn lemma_square_lt(x: int, y: int)
    requires
        0 <= x < y,
    ensures
        square(x) < square(y),
{
    assert(x * x < y * y) by (nonlinear_arith)
        requires
            0 <= x < y,
    ;
}

/// The square of a number is the square of its magnitude.
pub proof fn lemma_square_of_magnitude(x: int)
    ensures
        square(x) == square(magnitude(x)),
        square(x) >= 0,
{
    assert(x * x == (-x) * (-x)) by (nonlinear_arith);
    assert(x * x >= 0) by (nonlinear_arith);
}

/// The square of a product is the product of the squares.
pub proof fn lemma_square_of_product(x: int, y: int)
    ensures
        square(x * y) == square(x) * square(y),
{
    assert((x * y) * (x * y) == (x * x) * (y * y)) by (nonlinear_arith);
}

/// Rounding toward zero divides the magnitude and rounds it down.
pub proof fn lemma_trunc_div_magnitude(x: int, d: int)
    requires
        d > 0,
    ensures
        magnitude(trunc_div(x, d)) == magnitude(x) / d,
        (magnitude(x) / d) * d <= magnitude(x) < (magnitude(x) / d + 1) * d,
        magnitude(x) / d >= 0,
{
    let m = magnitude(x);
    assert(m / d >= 0 && (m / d) * d <= m < (m / d + 1) * d) by (nonlinear_arith)
        requires
            m >= 0,
            d > 0,
    ;
}

/// No component of a vector is longer than the vector.
pub proof fn lemma_component_within_length(x: int, y: int, len: int)
    requires
        is_int_sqrt(square(x) + square(y), len),
    ensures
        magnitude(x) <= len,
        magnitude(y) <= len,
{
    lemma_square_of_magnitude(x);
    lemma_square_of_magnitude(y);
    if magnitude(x) > len {
        lemma_square_le(len + 1, magnitude(x));
    }
    if magnitude(y) > len {
        lemma_square_le(len + 1, magnitude(y));
    }
}

/// One coordinate of the direction: `v` over `len`, as a fixed-point scalar.
pub open spec fn unit_part(v: int, len: int) -> int {
    trunc_div(v * SCALE, len)
}

/// One coordinate of the direction `u`, scaled to the length `rest`.
pub open spec fn rest_part(u: int, rest: int) -> int {
    trunc_div(u * rest, SCALE as int)
}

/// One coordinate of a separation that has been brought to the length
/// `rest`: the coordinate `v`, brought to length one and scaled.
pub open spec fn stretch(v: int, len: int, rest: int) -> int {
    rest_part(unit_part(v, len), rest)
}

/// One coordinate of twice the correction of a line: the coordinate `v` of
/// the separation, brought to the rest length, halved and doubled again.
pub open spec fn reach(v: int, len: int, rest: int) -> int {
    2 * trunc_div(stretch(v, len, rest), 2)
}

/// What rounding does to one coordinate on its way from the separation to
/// twice the correction.
pub proof fn lemma_reach_parts(v: int, len: int, rest: int)
    requires
        len >= 1,
        magnitude(v) <= len,
        rest >= 0,
    ensures
        ({
            let a = magnitude(unit_part(v, len));
            let a1 = magnitude(stretch(v, len, rest));
            let big = magnitude(reach(v, len, rest));
            &&& a * len <= magnitude(v) * SCALE < (a + 1) * len
            &&& 0 <= a <= SCALE
            &&& a1 * SCALE <= a * rest < (a1 + 1) * SCALE
            &&& 0 <= a1 <= rest
            &&& 0 <= big <= a1 <= big + 1
        }),
{
    let u = unit_part(v, len);
    let w = rest_part(u, rest);
    let a = magnitude(u);
    let a1 = magnitude(w);
    assert(SCALE == 1_000_000);
    lemma_trunc_div_magnitude(v * SCALE, len);
    assert(magnitude(v * SCALE) == magnitude(v) * SCALE);
    assert(a <= SCALE) by (nonlinear_arith)
        requires
            a * len <= magnitude(v) * 1_000_000,
            magnitude(v) <= len,
            len >= 1,
            SCALE == 1_000_000,
    ;
    lemma_trunc_div_magnitude(u * rest, SCALE as int);
    assert(magnitude(u * rest) == a * rest) by (nonlinear_arith)
        requires
            a == magnitude(u),
            rest >= 0,
    ;
    assert(a * rest <= SCALE * rest) by (nonlinear_arith)
        requires
            0 <= a <= SCALE,
            rest >= 0,
    ;
    lemma_trunc_div_magnitude(w, 2);
}

/// If `w * s <= u * r` and `u * l <= s * n`, then `w * l <= n * r`.
pub proof fn lemma_chain(w: int, u: int, r: int, l: int, n: int, s: int)
    requires
        w >= 0,
        u >= 0,
        r >= 0,
        l >= 0,
        n >= 0,
        s > 0,
        w * s <= u * r,
        u * l <= s * n,
    ensures
        w * l <= n * r,
{
    assert((w * s) * l <= (u * r) * l) by (nonlinear_arith)
        requires
            w * s <= u * r,
            l >= 0,
    ;
    assert((u * l) * r <= (s * n) * r) by (nonlinear_arith)
        requires
            u * l <= s * n,
            r >= 0,
    ;
    assert((u * r) * l == (u * l) * r) by (nonlinear_arith);
    assert((w * s) * l == s * (w * l)) by (nonlinear_arith);
    assert((s * n) * r == s * (n * r)) by (nonlinear_arith);
    assert(w * l <= n * r) by (nonlinear_arith)
        requires
            s * (w * l) <= s * (n * r),
            s > 0,
    ;
}

/// A number whose square, times `len * len`, is at most the square of
/// `r * len + r` is at most `r + r / len + 1`.
pub proof fn lemma_root_above(t: int, r: int, len: int)
    requires
        t >= 0,
        r >= 0,
        len >= 1,
        t * square(len) <= square(r * len + r),
    ensures
        t <= square(r + r / len + 1),
{
    let e = r / len + 1;
    assert(e * len > r) by (nonlinear_arith)
        requires
            e == r / len + 1,
            len >= 1,
            r >= 0,
    ;
    if t > square(r + e) {
        assert((r + e) * len == r * len + e * len) by (nonlinear_arith);
        lemma_square_lt(r * len + r, (r + e) * len);
        lemma_square_of_product(r + e, len);
        lemma_square_le(1, len);
        assert(t * square(len) > square(r + e) * square(len)) by (nonlinear_arith)
            requires
                t > square(r + e),
                square(len) >= 1,
        ;
    }
}

/// A separation that has been brought to the rest length is no longer than
/// the rest length and a small excess, which is the smaller the longer the
/// separation was.
pub proof fn lemma_stretch_is_not_too_long(vx: int, vy: int, len: int, rest: int)
    requires
        len >= 1,
        is_int_sqrt(square(vx) + square(vy), len),
        rest >= 0,
    ensures
        square(stretch(vx, len, rest)) + square(stretch(vy, len, rest)) <= square(
            rest + excess(rest, len),
        ),
{
    let s = SCALE as int;
    assert(s == 1_000_000);
    let p = magnitude(vx);
    let q = magnitude(vy);
    let a = magnitude(unit_part(vx, len));
    let b = magnitude(unit_part(vy, len));
    let a1 = magnitude(stretch(vx, len, rest));
    let b1 = magnitude(stretch(vy, len, rest));
    lemma_component_within_length(vx, vy, len);
    lemma_reach_parts(vx, len, rest);
    lemma_reach_parts(vy, len, rest);
    lemma_square_of_magnitude(vx);
    lemma_square_of_magnitude(vy);
    lemma_square_of_magnitude(stretch(vx, len, rest));
    lemma_square_of_magnitude(stretch(vy, len, rest));
    // The direction is at most as long as the separation allows.
    lemma_square_le(a * len, p * s);
    lemma_square_le(b * len, q * s);
    lemma_square_of_product(a, len);
    lemma_square_of_product(b, len);
    lemma_square_of_product(p, s);
    lemma_square_of_product(q, s);
    let u = square(a) + square(b);
    let n = square(len + 1);
    assert(u * square(len) == square(a) * square(len) + square(b) * square(len))
        by (nonlinear_arith)
        requires
            u == square(a) + square(b),
    ;
    assert((square(p) + square(q)) * square(s) == square(p) * square(s) + square(q) * square(s))
        by (nonlinear_arith);
    assert(u * square(len) <= square(s) * n) by (nonlinear_arith)
        requires
            u * square(len) <= (square(p) + square(q)) * square(s),
            square(p) + square(q) < n,
            square(s) > 0,
    ;
    // Scaling to the rest length.
    lemma_square_le(a1 * s, a * rest);
    lemma_square_le(b1 * s, b * rest);
    lemma_square_of_product(a1, s);
    lemma_square_of_product(b1, s);
    lemma_square_of_product(a, rest);
    lemma_square_of_product(b, rest);
    let w = square(a1) + square(b1);
    assert(w * square(s) == square(a1) * square(s) + square(b1) * square(s)) by (nonlinear_arith)
        requires
            w == square(a1) + square(b1),
    ;
    assert(u * square(rest) == square(a) * square(rest) + square(b) * square(rest))
        by (nonlinear_arith)
        requires
            u == square(a) + square(b),
    ;
    lemma_square_of_magnitude(a);
    lemma_square_of_magnitude(b);
    lemma_square_of_magnitude(a1);
    lemma_square_of_magnitude(b1);
    lemma_square_of_magnitude(rest);
    lemma_square_of_magnitude(len);
    lemma_square_of_magnitude(len + 1);
    lemma_chain(w, u, square(rest), square(len), n, square(s));
    lemma_square_of_product(len + 1, rest);
    assert((len + 1) * rest == rest * len + rest) by (nonlinear_arith);
    assert(n * square(rest) == square(rest * len + rest));
    lemma_root_above(w, rest, len);
}

/// Halving and doubling a coordinate does not make it longer.
pub proof fn lemma_reach_within_stretch(vx: int, vy: int, len: int, rest: int)
    requires
        len >= 1,
        is_int_sqrt(square(vx) + square(vy), len),
        rest >= 0,
    ensures
        square(reach(vx, len, rest)) + square(reach(vy, len, rest)) <= square(
            stretch(vx, len, rest),
        ) + square(stretch(vy, len, rest)),
{
    lemma_component_within_length(vx, vy, len);
    lemma_reach_parts(vx, len, rest);
    lemma_reach_parts(vy, len, rest);
    lemma_square_of_magnitude(stretch(vx, len, rest));
    lemma_square_of_magnitude(stretch(vy, len, rest));
    lemma_square_of_magnitude(reach(vx, len, rest));
    lemma_square_of_magnitude(reach(vy, len, rest));
    lemma_square_le(magnitude(reach(vx, len, rest)), magnitude(stretch(vx, len, rest)));
    lemma_square_le(magnitude(reach(vy, len, rest)), magnitude(stretch(vy, len, rest)));
}

/// Twice the correction of a line is no longer than the rest length and a
/// small excess, which is the smaller the farther apart the ends are.
pub proof fn lemma_reach_is_not_too_long(vx: int, vy: int, len: int, rest: int)
    requires
        len >= 1,
        is_int_sqrt(square(vx) + square(vy), len),
        rest >= 0,
    ensures
        square(reach(vx, len, rest)) + square(reach(vy, len, rest)) <= square(
            rest + excess(rest, len),
        ),
{
    lemma_stretch_is_not_too_long(vx, vy, len, rest);
    lemma_reach_within_stretch(vx, vy, len, rest);
}

/// A separation that has been brought to the rest length is no shorter than
/// the rest length less the shortfall.
pub proof fn lemma_stretch_is_not_too_short(vx: int, vy: int, len: int, rest: int)
    requires
        len >= 1,
        is_int_sqrt(square(vx) + square(vy), len),
        rest >= 0,
    ensures
        rest <= shortfall(rest) || square(rest - shortfall(rest)) <= square(
            stretch(vx, len, rest),
        ) + square(stretch(vy, len, rest)),
{
    lemma_reach_is_not_too_short(vx, vy, len, rest);
    lemma_reach_within_stretch(vx, vy, len, rest);
}

/// How much longer than the rest length twice the correction of a line can
/// be: one step, and the part of the rest length that one step is of `len`.
pub open spec fn excess(rest: int, len: int) -> int {
    rest / len + 1
}

/// How much shorter than the rest length twice the correction of a line can
/// be: three millionths of the rest length, and sixteen steps.
pub open spec fn shortfall(rest: int) -> int {
    3 * (rest / (SCALE as int)) + 16
}

/// A sum of squares `t` that is nearly `r * r` is at least the square of `r`
/// less the shortfall.
pub proof fn lemma_root_below(t: int, r: int)
    requires
        t >= 0,
        r >= 0,
        (t + 8 * r + 8) * 1_000_000_000_000 > (1_000_000_000_000 - 4_000_001) * (r * r),
    ensures
        r <= shortfall(r) || square(r - shortfall(r)) <= t,
{
    assert(SCALE == 1_000_000);
    let j = r / 1_000_000;
    let k = 3 * j + 16;
    assert(shortfall(r) == k);
    if r > k && square(r - k) > t {
        let jr = j * r;
        let jj = j * j;
        let rr = r * r;
        assert(square(r - k) == rr - 6 * jr - 32 * r + 9 * jj + 96 * j + 256) by (nonlinear_arith)
            requires
                k == 3 * j + 16,
                jr == j * r,
                jj == j * j,
                rr == r * r,
        ;
        assert(rr <= 1_000_000 * jr + 1_000_000 * r) by (nonlinear_arith)
            requires
                0 <= r < (j + 1) * 1_000_000,
                jr == j * r,
                rr == r * r,
        ;
        assert(jr >= jj * 1_000_000) by (nonlinear_arith)
            requires
                r >= j * 1_000_000,
                j >= 0,
                jr == j * r,
                jj == j * j,
        ;
        assert(jj >= 0) by (nonlinear_arith)
            requires
                jj == j * j,
        ;
        assert(false);
    }
}

/// Twice the correction of a line is no shorter than the rest length less the
/// shortfall.
pub proof fn lemma_reach_is_not_too_short(vx: int, vy: int, len: int, rest: int)
    requires
        len >= 1,
        is_int_sqrt(square(vx) + square(vy), len),
        rest >= 0,
    ensures
        rest <= shortfall(rest) || square(rest - shortfall(rest)) <= square(
            reach(vx, len, rest),
        ) + square(reach(vy, len, rest)),
{
    let s = SCALE as int;
    assert(s == 1_000_000);
    let p = magnitude(vx);
    let q = magnitude(vy);
    let a = magnitude(unit_part(vx, len));
    let b = magnitude(unit_part(vy, len));
    let a1 = magnitude(rest_part(unit_part(vx, len), rest));
    let b1 = magnitude(rest_part(unit_part(vy, len), rest));
    let big_a = magnitude(reach(vx, len, rest));
    let big_b = magnitude(reach(vy, len, rest));
    lemma_component_within_length(vx, vy, len);
    lemma_reach_parts(vx, len, rest);
    lemma_reach_parts(vy, len, rest);
    lemma_square_of_magnitude(vx);
    lemma_square_of_magnitude(vy);
    lemma_square_of_magnitude(reach(vx, len, rest));
    lemma_square_of_magnitude(reach(vy, len, rest));
    lemma_square_of_magnitude(len);
    lemma_square_of_magnitude(rest);
    lemma_square_le(1, len);
    // The direction is nearly of length one.
    lemma_square_lt(p * s, (a + 1) * len);
    lemma_square_lt(q * s, (b + 1) * len);
    lemma_square_of_product(a + 1, len);
    lemma_square_of_product(b + 1, len);
    lemma_square_of_product(p, s);
    lemma_square_of_product(q, s);
    let x = square(a + 1) + square(b + 1);
    assert(x * square(len) == square(a + 1) * square(len) + square(b + 1) * square(len))
        by (nonlinear_arith)
        requires
            x == square(a + 1) + square(b + 1),
    ;
    assert((square(p) + square(q)) * square(s) == square(p) * square(s) + square(q) * square(s))
        by (nonlinear_arith);
    assert(x > square(s)) by (nonlinear_arith)
        requires
            x * square(len) > (square(p) + square(q)) * square(s),
            square(p) + square(q) >= square(len),
            square(len) >= 1,
            square(s) > 0,
    ;
    assert(square(a + 1) == square(a) + 2 * a + 1) by (nonlinear_arith);
    assert(square(b + 1) == square(b) + 2 * b + 1) by (nonlinear_arith);
    let u = square(a) + square(b);
    assert(u >= square(s) - 4 * s - 1);
    // Scaling to the rest length.
    lemma_square_lt(a * rest, (a1 + 1) * s);
    lemma_square_lt(b * rest, (b1 + 1) * s);
    lemma_square_of_product(a1 + 1, s);
    lemma_square_of_product(b1 + 1, s);
    lemma_square_of_product(a, rest);
    lemma_square_of_product(b, rest);
    let y = square(a1 + 1) + square(b1 + 1);
    assert(y * square(s) == square(a1 + 1) * square(s) + square(b1 + 1) * square(s))
        by (nonlinear_arith)
        requires
            y == square(a1 + 1) + square(b1 + 1),
    ;
    assert(u * square(rest) == square(a) * square(rest) + square(b) * square(rest))
        by (nonlinear_arith)
        requires
            u == square(a) + square(b),
    ;
    assert(u * square(rest) >= (square(s) - 4 * s - 1) * square(rest)) by (nonlinear_arith)
        requires
            u >= square(s) - 4 * s - 1,
            square(rest) >= 0,
    ;
    // Halving and doubling.
    lemma_square_le(a1 + 1, big_a + 2);
    lemma_square_le(b1 + 1, big_b + 2);
    assert(square(big_a + 2) == square(big_a) + 4 * big_a + 4) by (nonlinear_arith);
    assert(square(big_b + 2) == square(big_b) + 4 * big_b + 4) by (nonlinear_arith);
    let t = square(big_a) + square(big_b);
    lemma_square_of_magnitude(big_a);
    lemma_square_of_magnitude(big_b);
    assert(y <= t + 8 * rest + 8);
    assert(y * square(s) <= (t + 8 * rest + 8) * square(s)) by (nonlinear_arith)
        requires
            y <= t + 8 * rest + 8,
            square(s) >= 0,
    ;
    assert(square(s) == 1_000_000_000_000);
    lemma_root_below(t, rest);
}

/// Rounding toward zero treats a number and its negative alike.
pub proof fn lemma_trunc_div_of_negative(x: int, d: int)
    requires
        d != 0,
    ensures
        trunc_div(-x, d) == -trunc_div(x, d),
{
    if x == 0 {
        assert(0int / d == 0) by (nonlinear_arith)
            requires
                d != 0,
        ;
    }
}

/// One coordinate of twice the correction changes sign with the separation,
/// and is no larger than the rest length.
pub proof fn lemma_reach_of_negative(v: int, len: int, rest: int)
    requires
        len >= 1,
        magnitude(v) <= len,
        rest >= 0,
    ensures
        unit_part(-v, len) == -unit_part(v, len),
        rest_part(-unit_part(v, len), rest) == -rest_part(unit_part(v, len), rest),
        trunc_div(-rest_part(unit_part(v, len), rest), 2) == -trunc_div(
            rest_part(unit_part(v, len), rest),
            2,
        ),
        magnitude(unit_part(v, len)) <= SCALE,
        magnitude(rest_part(unit_part(v, len), rest)) <= rest,
        magnitude(reach(v, len, rest)) <= rest,
{
    let u = unit_part(v, len);
    let w = rest_part(u, rest);
    lemma_reach_parts(v, len, rest);
    assert((-v) * SCALE == -(v * SCALE)) by (nonlinear_arith);
    lemma_trunc_div_of_negative(v * SCALE, len);
    assert((-u) * rest == -(u * rest)) by (nonlinear_arith);
    lemma_trunc_div_of_negative(u * rest, SCALE as int);
    lemma_trunc_div_of_negative(w, 2);
}

} // verus!
