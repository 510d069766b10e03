//! Measures of closed polygons.

use vstd::prelude::*;
use crate::util::fixed::{
    fx_abs, fx_add, fx_difference, fx_half, fx_halve, fx_magnitude, fx_mul, fx_product, fx_sub,
    fx_sum,
};
use crate::util::vector::Vec2;

verus! {

/// The vertex that follows vertex `i` on the closed polygon `points`: the
/// last vertex is followed by the first.
pub open spec fn next_vertex(points: Seq<Vec2>, i: int) -> Vec2 {
    if i == points.len() - 1 {
        points[0]
    } else {
        points[i + 1]
    }
}

/// The signed area of the trapezoid between the edge from `current` to `next`
/// and the horizontal axis: `(current.x - next.x) * (current.y + next.y) / 2`.
pub open spec fn edge_trapezoid(current: Vec2, next: Vec2) -> i64 {
    fx_half(fx_product(fx_difference(current.x, next.x), fx_sum(current.y, next.y)))
}

/// The signed area of the trapezoid under the edge that leaves vertex `i`.
pub open spec fn trapezoid(points: Seq<Vec2>, i: int) -> i64 {
    edge_trapezoid(points[i], next_vertex(points, i))
}

/// The sum of the trapezoids of the first `k` edges.
pub open spec fn trapezoid_sum(points: Seq<Vec2>, k: nat) -> i64
    decreases k,
{
    if k == 0 {
        0
    } else {
        fx_sum(trapezoid_sum(points, (k - 1) as nat), trapezoid(points, k - 1))
    }
}

/// The area that the closed polygon `points` encloses, whichever way it winds.
pub open spec fn trapezoidal_area(points: Seq<Vec2>) -> i64 {
    fx_magnitude(trapezoid_sum(points, points.len()))
}

/// Measures the area that a closed polygon encloses by the trapezoid formula.
/// The result does not depend on the direction in which the vertices wind.
pub fn get_trapezoidal_area(points: &[Vec2]) -> (area: i64)
    ensures
        area == trapezoidal_area(points@),
{
    let n: usize = points.len();
    let mut area: i64 = 0;
    let mut i: usize = 0;
    while i < n
        invariant
            i <= n,
            n == points@.len(),
            area == trapezoid_sum(points@, i as nat),
        decreases n - i,
    {
        let current: Vec2 = points[i];
        let next: Vec2 = if i == n - 1 {
            points[0]
        } else {
            points[i + 1]
        };
        let term: i64 = fx_halve(fx_mul(fx_sub(current.x, next.x), fx_add(current.y, next.y)));
        area = fx_add(area, term);
        i += 1;
    }
    fx_abs(area)
}

} // verus!
