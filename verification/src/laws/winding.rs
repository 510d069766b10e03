//! The area of a polygon does not depend on the way it winds.

use vstd::prelude::*;
use crate::laws::reach::lemma_trunc_div_of_negative;
use crate::util::fixed::{representable, trunc_div, SCALE};
use crate::util::shapes::{
    edge_trapezoid, next_vertex, trapezoid, trapezoid_sum, trapezoidal_area,
};
use crate::util::vector::Vec2;

verus! {

/// Whether the trapezoid of the edge between `a` and `b` is measured without
/// a value reaching the end of the scalar range, whichever way the edge runs.
pub open spec fn edge_in_range(a: Vec2, b: Vec2) -> bool {
    &&& -i64::MAX <= a.x - b.x <= i64::MAX
    &&& representable(a.y + b.y)
    &&& -i64::MAX <= trunc_div((a.x - b.x) * (a.y + b.y), SCALE as int) <= i64::MAX
}

/// The sum of the trapezoids of the edges `lo` to `hi - 1`, without
/// saturation.
pub open spec fn trapezoid_total(points: Seq<Vec2>, lo: int, hi: int) -> int
    decreases hi - lo,
{
    if hi <= lo {
        0
    } else {
        trapezoid_total(points, lo, hi - 1) + trapezoid(points, hi - 1)
    }
}

/// Whether the polygon `points` is measured without a value reaching the end
/// of the scalar range: neither in the trapezoid of an edge nor in the sum of
/// the trapezoids of the first edges.
pub open spec fn measured_in_range(points: Seq<Vec2>) -> bool {
    &&& forall|i: int|
        0 <= i < points.len() ==> edge_in_range(#[trigger] points[i], next_vertex(points, i))
    &&& forall|k: int|
        0 <= k <= points.len() ==> -i64::MAX <= #[trigger] trapezoid_total(points, 0, k)
            <= i64::MAX
}

/// The trapezoid of an edge changes sign with the direction of the edge.
proof fn lemma_edge_reversed(a: Vec2, b: Vec2)
    requires
        edge_in_range(a, b),
    ensures
        edge_trapezoid(b, a) == -edge_trapezoid(a, b),
{
    let d = a.x - b.x;
    let s = a.y + b.y;
    assert((-d) * s == -(d * s)) by (nonlinear_arith);
    lemma_trunc_div_of_negative(d * s, SCALE as int);
    lemma_trunc_div_of_negative(trunc_div(d * s, SCALE as int), 2);
}

/// Without saturation the sum of the trapezoids is their total.
proof fn lemma_sum_is_total(points: Seq<Vec2>, k: nat)
    requires
        k <= points.len(),
        forall|j: int|
            0 <= j <= k ==> -i64::MAX <= #[trigger] trapezoid_total(points, 0, j) <= i64::MAX,
    ensures
        trapezoid_sum(points, k) == trapezoid_total(points, 0, k as int),
    decreases k,
{
    if k > 0 {
        lemma_sum_is_total(points, (k - 1) as nat);
        assert(-i64::MAX <= trapezoid_total(points, 0, k as int) <= i64::MAX);
    }
}

/// A total can be taken from its first edge on.
proof fn lemma_total_from_the_front(points: Seq<Vec2>, lo: int, hi: int)
    requires
        lo < hi,
    ensures
        trapezoid_total(points, lo, hi) == trapezoid(points, lo) + trapezoid_total(
            points,
            lo + 1,
            hi,
        ),
    decreases hi - lo,
{
    if lo + 1 < hi {
        lemma_total_from_the_front(points, lo, hi - 1);
    } else {
        assert(trapezoid_total(points, lo, lo) == 0);
        assert(trapezoid_total(points, lo + 1, hi) == 0);
    }
}

/// The first edges of the reversed polygon are the edges before the last of
/// the polygon, taken backwards.
proof fn lemma_reversed_total(points: Seq<Vec2>, k: int)
    requires
        0 <= k < points.len(),
        forall|i: int|
            0 <= i < points.len() ==> edge_in_range(#[trigger] points[i], next_vertex(points, i)),
    ensures
        trapezoid_total(points.reverse(), 0, k) == -trapezoid_total(
            points,
            points.len() - 1 - k,
            points.len() - 1,
        ),
    decreases k,
{
    let n = points.len() as int;
    if k > 0 {
        lemma_reversed_total(points, k - 1);
        let j = n - 1 - k;
        assert(points.reverse()[k - 1] == points[j + 1]);
        assert(points.reverse()[k] == points[j]);
        assert(next_vertex(points.reverse(), k - 1) == points[j]);
        assert(next_vertex(points, j) == points[j + 1]);
        lemma_edge_reversed(points[j], points[j + 1]);
        lemma_total_from_the_front(points, j, n - 1);
    }
}

/// A polygon encloses the same area wound one way or the other, where it is
/// measured either way without a value reaching the end of the scalar range.
pub proof fn law_area_ignores_winding(points: Seq<Vec2>)
    requires
        measured_in_range(points),
        measured_in_range(points.reverse()),
    ensures
        trapezoidal_area(points.reverse()) == trapezoidal_area(points),
{
    let n = points.len();
    let back = points.reverse();
    lemma_sum_is_total(points, n);
    lemma_sum_is_total(back, n);
    if n > 0 {
        lemma_reversed_total(points, n - 1);
        assert(back[n - 1] == points[0]);
        assert(back[0] == points[n - 1]);
        assert(next_vertex(back, n - 1) == points[n - 1]);
        assert(next_vertex(points, n - 1) == points[0]);
        lemma_edge_reversed(points[n - 1], points[0]);
        assert(trapezoid_total(back, 0, n as int) == -trapezoid_total(points, 0, n as int));
    }
}

} // verus!
