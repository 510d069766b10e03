//! A line treats its two ends alike.

use vstd::prelude::*;
use crate::components::shapes::{Line, Point};
use crate::laws::reach::{
    lemma_component_within_length, lemma_reach_of_negative, lemma_square_of_magnitude, magnitude,
    square,
};
use crate::systems::physics::{
    end_candidate, end_proposal, line_active, line_correction, relaxed_once, start_candidate,
    start_proposal,
};
use crate::util::fixed::{lemma_int_sqrt_exists, SCALE};
use crate::util::vector::{
    v_difference, v_length, v_length_squared, v_midpoint, v_normalized, v_scaled, v_zero, Vec2,
};

verus! {

/// `line` with its ends exchanged.
pub open spec fn reversed(line: Line) -> Line {
    Line { start: line.end, end: line.start, constraint: line.constraint }
}

/// Whether the separation of `a` and `b` can be taken either way round
/// without leaving the scalar range.
pub open spec fn reversible(a: Vec2, b: Vec2) -> bool {
    &&& -i64::MAX <= a.x - b.x <= i64::MAX
    &&& -i64::MAX <= a.y - b.y <= i64::MAX
}

/// The correction of a line changes sign when the ends are exchanged, and
/// twice the correction is no longer than the rest length.
proof fn lemma_correction_reverses(start: Vec2, end: Vec2, rest: i64)
    requires
        rest >= 0,
        reversible(end, start),
    ensures
        line_correction(end, start, rest).x == -line_correction(start, end, rest).x,
        line_correction(end, start, rest).y == -line_correction(start, end, rest).y,
        magnitude(2 * line_correction(start, end, rest).x) <= rest,
        magnitude(2 * line_correction(start, end, rest).y) <= rest,
{
    let v = v_difference(end, start);
    let back = v_difference(start, end);
    assert(back.x == -v.x && back.y == -v.y);
    assert(v_length_squared(back) == v_length_squared(v)) by (nonlinear_arith)
        requires
            back.x == -v.x,
            back.y == -v.y,
    ;
    let len = v_length(v) as int;
    assert(SCALE == 1_000_000);
    lemma_square_of_magnitude(v.x as int);
    lemma_square_of_magnitude(v.y as int);
    if len >= 1 {
        lemma_int_sqrt_exists(v_length_squared(v));
        assert(v_length_squared(v) == square(v.x as int) + square(v.y as int));
        lemma_component_within_length(v.x as int, v.y as int, len);
        lemma_reach_of_negative(v.x as int, len, rest as int);
        lemma_reach_of_negative(v.y as int, len, rest as int);
        let forth = v_scaled(v_normalized(v), rest);
        let back_again = v_scaled(v_normalized(back), rest);
        assert(back_again.x == -forth.x && back_again.y == -forth.y);
    } else {
        assert(v_scaled(v_zero(), rest) == v_zero());
    }
}

/// A line proposes the same for its two ends whichever of them is called the
/// start: relaxing the reversed line gives what relaxing the line gives.
pub proof fn law_line_is_symmetric(points: Seq<Point>, line: Line)
    requires
        line.constraint.desired_distance >= 0,
        line.start < points.len() && line.end < points.len() ==> reversible(
            points[line.end as int].position,
            points[line.start as int].position,
        ),
    ensures
        relaxed_once(points, reversed(line)) == relaxed_once(points, line),
{
    if line_active(points, line) {
        let s = points[line.start as int];
        let e = points[line.end as int];
        let rest = line.constraint.desired_distance;
        lemma_correction_reverses(s.position, e.position, rest);
        assert(v_midpoint(e.position, s.position) == v_midpoint(s.position, e.position));
        assert(start_candidate(e.position, s.position, s.locked is Some, rest) == end_candidate(
            s.position,
            e.position,
            s.locked is Some,
            rest,
        ));
        assert(end_candidate(e.position, s.position, e.locked is Some, rest) == start_candidate(
            s.position,
            e.position,
            e.locked is Some,
            rest,
        ));
        assert(start_proposal(points, reversed(line)) == end_proposal(points, line));
        assert(end_proposal(points, reversed(line)) == start_proposal(points, line));
        assert(relaxed_once(points, reversed(line)) =~= relaxed_once(points, line));
    } else {
        assert(!line_active(points, reversed(line)));
    }
}

} // verus!
