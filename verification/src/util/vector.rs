//! Two-dimensional vectors of fixed-point scalars.

use vstd::prelude::*;
use crate::util::fixed::{
    fx_add, fx_clamp, fx_clamped, fx_difference, fx_div_count, fx_div_wide, fx_half, fx_halve,
    fx_int_sqrt, fx_mul, fx_neg, fx_negation, fx_product, fx_quotient, fx_share, fx_sub, fx_sum,
    int_sqrt, trunc_div,
};

verus! {

/// A position, displacement or direction in the plane.
#[derive(Clone, Copy, Debug, PartialEq, Eq, Structural)]
pub struct Vec2 {
    pub x: i64,
    pub y: i64,
}

/// The origin.
pub open spec fn v_zero() -> Vec2 {
    Vec2 { x: 0, y: 0 }
}

/// Component-wise saturating sum.
pub open spec fn v_sum(a: Vec2, b: Vec2) -> Vec2 {
    Vec2 { x: fx_sum(a.x, b.x), y: fx_sum(a.y, b.y) }
}

/// Component-wise saturating difference `a - b`.
pub open spec fn v_difference(a: Vec2, b: Vec2) -> Vec2 {
    Vec2 { x: fx_difference(a.x, b.x), y: fx_difference(a.y, b.y) }
}

/// `v` multiplied by the scalar `k`.
pub open spec fn v_scaled(v: Vec2, k: i64) -> Vec2 {
    Vec2 { x: fx_product(v.x, k), y: fx_product(v.y, k) }
}

/// Half of `v`.
pub open spec fn v_half(v: Vec2) -> Vec2 {
    Vec2 { x: fx_half(v.x), y: fx_half(v.y) }
}

/// Twice `v`.
pub open spec fn v_twice(v: Vec2) -> Vec2 {
    v_sum(v, v)
}

/// `v` divided by the whole number `n`; the origin when `n` is zero.
pub open spec fn v_share(v: Vec2, n: u32) -> Vec2 {
    Vec2 { x: fx_share(v.x, n), y: fx_share(v.y, n) }
}

/// The point halfway between `a` and `b`, computed without saturation.
pub open spec fn v_midpoint(a: Vec2, b: Vec2) -> Vec2 {
    Vec2 { x: trunc_div(a.x + b.x, 2) as i64, y: trunc_div(a.y + b.y, 2) as i64 }
}

/// `v` turned a quarter turn clockwise: `(y, -x)`.
pub open spec fn v_perpendicular(v: Vec2) -> Vec2 {
    Vec2 { x: v.y, y: fx_negation(v.x) }
}

/// The squared Euclidean length of `v`.
pub open spec fn v_length_squared(v: Vec2) -> nat {
    (v.x * v.x + v.y * v.y) as nat
}

/// The Euclidean length of `v`, rounded down.
pub open spec fn v_length(v: Vec2) -> nat {
    int_sqrt(v_length_squared(v))
}

/// The vector of length one in the direction of `v`; the origin when `v` is
/// shorter than one representable step.
pub open spec fn v_normalized(v: Vec2) -> Vec2 {
    let len = v_length(v);
    if len == 0 {
        v_zero()
    } else {
        Vec2 { x: fx_quotient(v.x, len as int), y: fx_quotient(v.y, len as int) }
    }
}

/// Each coordinate of `v` confined to `[lo, hi]`.
pub open spec fn v_clamped(v: Vec2, lo: i64, hi: i64) -> Vec2 {
    Vec2 { x: fx_clamped(v.x, lo, hi), y: fx_clamped(v.y, lo, hi) }
}

impl Vec2 {
    /// The vector with the coordinates `x` and `y`.
    pub fn new(x: i64, y: i64) -> (r: Vec2)
        ensures
            r == (Vec2 { x, y }),
    {
        Vec2 { x, y }
    }

    /// The origin.
    pub fn zero() -> (r: Vec2)
        ensures
            r == v_zero(),
    {
        Vec2 { x: 0, y: 0 }
    }

    /// Adds two vectors; each coordinate saturates on its own.
    pub fn plus(self, other: Vec2) -> (r: Vec2)
        ensures
            r == v_sum(self, other),
    {
        Vec2 { x: fx_add(self.x, other.x), y: fx_add(self.y, other.y) }
    }

    /// Subtracts `other`; each coordinate saturates on its own.
    pub fn minus(self, other: Vec2) -> (r: Vec2)
        ensures
            r == v_difference(self, other),
    {
        Vec2 { x: fx_sub(self.x, other.x), y: fx_sub(self.y, other.y) }
    }

    /// Multiplies by the scalar `k`.
    pub fn scaled(self, k: i64) -> (r: Vec2)
        ensures
            r == v_scaled(self, k),
    {
        Vec2 { x: fx_mul(self.x, k), y: fx_mul(self.y, k) }
    }

    /// Halves each coordinate, rounding toward zero.
    pub fn halved(self) -> (r: Vec2)
        ensures
            r == v_half(self),
    {
        Vec2 { x: fx_halve(self.x), y: fx_halve(self.y) }
    }

    /// Doubles each coordinate; each saturates on its own.
    pub fn doubled(self) -> (r: Vec2)
        ensures
            r == v_twice(self),
    {
        self.plus(self)
    }

    /// Divides each coordinate by the whole number `n`, rounding toward zero;
    /// the origin for `n` zero.
    pub fn shared(self, n: u32) -> (r: Vec2)
        ensures
            r == v_share(self, n),
    {
        Vec2 { x: fx_div_count(self.x, n), y: fx_div_count(self.y, n) }
    }

    /// The point halfway to `other`; exact up to rounding toward zero, even
    /// where the sum of the coordinates leaves the scalar range.
    pub fn midpoint(self, other: Vec2) -> (r: Vec2)
        ensures
            r == v_midpoint(self, other),
    {
        let mx: i128 = (self.x as i128 + other.x as i128) / 2;
        let my: i128 = (self.y as i128 + other.y as i128) / 2;
        Vec2 { x: mx as i64, y: my as i64 }
    }

    /// Turns the vector a quarter turn clockwise.
    pub fn perpendicular(self) -> (r: Vec2)
        ensures
            r == v_perpendicular(self),
    {
        Vec2 { x: self.y, y: fx_neg(self.x) }
    }

    /// The Euclidean length, rounded down.
    pub fn length(self) -> (r: u64)
        ensures
            r == v_length(self),
    {
        let x: i128 = self.x as i128;
        let y: i128 = self.y as i128;
        assert(0 <= x * x <= 0x4000_0000_0000_0000_0000_0000_0000_0000) by (nonlinear_arith)
            requires
                -0x8000_0000_0000_0000 <= x <= 0x8000_0000_0000_0000,
        ;
        assert(0 <= y * y <= 0x4000_0000_0000_0000_0000_0000_0000_0000) by (nonlinear_arith)
            requires
                -0x8000_0000_0000_0000 <= y <= 0x8000_0000_0000_0000,
        ;
        let xx: u128 = (x * x) as u128;
        let yy: u128 = (y * y) as u128;
        fx_int_sqrt(xx + yy)
    }

    /// Brings the vector to length one; the origin stays the origin.
    pub fn normalized(self) -> (r: Vec2)
        ensures
            r == v_normalized(self),
    {
        let len: u64 = self.length();
        if len == 0 {
            Vec2 { x: 0, y: 0 }
        } else {
            Vec2 { x: fx_div_wide(self.x, len as i128), y: fx_div_wide(self.y, len as i128) }
        }
    }

    /// Confines each coordinate to `[lo, hi]`.
    pub fn clamped(self, lo: i64, hi: i64) -> (r: Vec2)
        ensures
            r == v_clamped(self, lo, hi),
    {
        Vec2 { x: fx_clamp(self.x, lo, hi), y: fx_clamp(self.y, lo, hi) }
    }
}

} // verus!
