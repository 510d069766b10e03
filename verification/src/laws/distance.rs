//! How far apart a line sets its ends.

use vstd::prelude::*;
use crate::components::shapes::{Line, Point};
use crate::laws::averaging::{law_proposals_see_positions_before, lemma_absorbed_five};
use crate::laws::reach::{
    excess, lemma_component_within_length, lemma_reach_is_not_too_long,
    lemma_reach_is_not_too_short, lemma_reach_parts, lemma_square_of_magnitude, reach, shortfall,
    square,
};
use crate::systems::physics::{
    absorbed, absorbed_all, displaced, displaced_point, distance_solved, end_candidate,
    end_proposal, lemma_distance_solved_keeps_kinematics, line_active, line_correction,
    line_share, start_candidate, start_proposal, RELAXATION_PASSES,
};
use crate::util::fixed::{is_int_sqrt, lemma_int_sqrt_exists, representable, SCALE};
use crate::util::vector::{v_difference, v_length, v_length_squared, v_midpoint, v_zero, Vec2};

verus! {

/// The square of the distance between `a` and `b`.
pub open spec fn distance_squared(a: Vec2, b: Vec2) -> int {
    square(a.x - b.x) + square(a.y - b.y)
}

/// Whether a line from `start` to `end` is relaxed without a value leaving
/// the scalar range: neither the separation of its ends nor a candidate for
/// one of them.
pub open spec fn within_range(start: Vec2, end: Vec2, rest: i64) -> bool {
    let correction = line_correction(start, end, rest);
    let middle = v_midpoint(start, end);
    &&& representable(end.x - start.x)
    &&& representable(end.y - start.y)
    &&& representable(middle.x + correction.x)
    &&& representable(middle.x - correction.x)
    &&& representable(middle.y + correction.y)
    &&& representable(middle.y - correction.y)
}

/// Twice the correction of a line, coordinate by coordinate.
proof fn lemma_correction_is_half_the_reach(start: Vec2, end: Vec2, rest: i64)
    requires
        rest >= 0,
        v_length(v_difference(end, start)) >= 1,
        representable(end.x - start.x),
        representable(end.y - start.y),
    ensures
        is_int_sqrt(
            square(end.x - start.x) + square(end.y - start.y),
            v_length(v_difference(end, start)) as int,
        ),
        2 * line_correction(start, end, rest).x == reach(
            end.x - start.x,
            v_length(v_difference(end, start)) as int,
            rest as int,
        ),
        2 * line_correction(start, end, rest).y == reach(
            end.y - start.y,
            v_length(v_difference(end, start)) as int,
            rest as int,
        ),
{
    let v = v_difference(end, start);
    let len = v_length(v) as int;
    assert(v.x == end.x - start.x && v.y == end.y - start.y);
    lemma_square_of_magnitude(v.x as int);
    lemma_square_of_magnitude(v.y as int);
    lemma_int_sqrt_exists(v_length_squared(v));
    assert(v_length_squared(v) == square(v.x as int) + square(v.y as int));
    lemma_component_within_length(v.x as int, v.y as int, len);
    lemma_reach_parts(v.x as int, len, rest as int);
    lemma_reach_parts(v.y as int, len, rest as int);
    assert(SCALE == 1_000_000);
}

/// A line whose ends are both free sets them the rest length apart, up to
/// rounding: not farther than the rest length, one step, and the part of the
/// rest length that one step is of the old separation; not nearer than the
/// rest length less three millionths of it and sixteen steps. This holds
/// whether the ends were too far apart or too close, as long as they were at
/// least one step apart.
pub proof fn law_free_ends_are_set_rest_length_apart(start: Vec2, end: Vec2, rest: i64)
    requires
        rest >= 0,
        v_length(v_difference(end, start)) >= 1,
        within_range(start, end, rest),
    ensures
        distance_squared(
            start_candidate(start, end, false, rest),
            end_candidate(start, end, false, rest),
        ) <= square(rest + excess(rest as int, v_length(v_difference(end, start)) as int)),
        rest <= shortfall(rest as int) || square(rest - shortfall(rest as int))
            <= distance_squared(
            start_candidate(start, end, false, rest),
            end_candidate(start, end, false, rest),
        ),
{
    let len = v_length(v_difference(end, start)) as int;
    lemma_correction_is_half_the_reach(start, end, rest);
    lemma_reach_is_not_too_long(end.x - start.x, end.y - start.y, len, rest as int);
    lemma_reach_is_not_too_short(end.x - start.x, end.y - start.y, len, rest as int);
}

/// A line with a locked start sets its end the rest length from the start, up
/// to rounding, and a line with a locked end sets its start the rest length
/// from the end.
pub proof fn law_free_end_is_set_rest_length_from_anchor(start: Vec2, end: Vec2, rest: i64)
    requires
        rest >= 0,
        v_length(v_difference(end, start)) >= 1,
        representable(end.x - start.x),
        representable(end.y - start.y),
        representable(2 * line_correction(start, end, rest).x),
        representable(2 * line_correction(start, end, rest).y),
    ensures
        representable(start.x - 2 * line_correction(start, end, rest).x) && representable(
            start.y - 2 * line_correction(start, end, rest).y,
        ) ==> {
            &&& distance_squared(start, end_candidate(start, end, true, rest)) <= square(
                rest + excess(rest as int, v_length(v_difference(end, start)) as int),
            )
            &&& rest <= shortfall(rest as int) || square(rest - shortfall(rest as int))
                <= distance_squared(start, end_candidate(start, end, true, rest))
        },
        representable(end.x + 2 * line_correction(start, end, rest).x) && representable(
            end.y + 2 * line_correction(start, end, rest).y,
        ) ==> {
            &&& distance_squared(start_candidate(start, end, true, rest), end) <= square(
                rest + excess(rest as int, v_length(v_difference(end, start)) as int),
            )
            &&& rest <= shortfall(rest as int) || square(rest - shortfall(rest as int))
                <= distance_squared(start_candidate(start, end, true, rest), end)
        },
{
    let len = v_length(v_difference(end, start)) as int;
    lemma_correction_is_half_the_reach(start, end, rest);
    lemma_reach_is_not_too_long(end.x - start.x, end.y - start.y, len, rest as int);
    lemma_reach_is_not_too_short(end.x - start.x, end.y - start.y, len, rest as int);
    lemma_square_of_magnitude(2 * line_correction(start, end, rest).x);
    lemma_square_of_magnitude(2 * line_correction(start, end, rest).y);
}

/// Whether `p` can take `proposal` [`RELAXATION_PASSES`] times, starting
/// with nothing accumulated, without the sum leaving the scalar range.
pub open spec fn takes_in_range(p: Point, proposal: Vec2) -> bool {
    &&& p.displacement == v_zero()
    &&& p.displacement_weight == 0
    &&& representable(RELAXATION_PASSES * proposal.x)
    &&& representable(RELAXATION_PASSES * proposal.y)
}

/// Whether `line` joins two free points that are at least one step apart and
/// have nothing accumulated, and can be relaxed without a value leaving the
/// scalar range.
pub open spec fn settles_in_range(points: Seq<Point>, line: Line) -> bool {
    let start = points[line.start as int];
    let end = points[line.end as int];
    &&& line_active(points, line)
    &&& start.locked is None
    &&& end.locked is None
    &&& line.constraint.desired_distance >= 0
    &&& v_length(v_difference(end.position, start.position)) >= 1
    &&& within_range(start.position, end.position, line.constraint.desired_distance)
    &&& takes_in_range(start, start_proposal(points, line))
    &&& takes_in_range(end, end_proposal(points, line))
}

/// A free point with nothing accumulated that is an end of the only line
/// moves by what the line proposes for it.
proof fn lemma_single_line_moves_its_end(points: Seq<Point>, line: Line, i: int)
    requires
        0 <= i < points.len(),
        line_share(points, line, i) is Some,
        takes_in_range(points[i], line_share(points, line, i)->0),
    ensures
        displaced(distance_solved(points, seq![line]))[i].position.x == points[i].position.x
            + (line_share(points, line, i)->0).x || !representable(
            points[i].position.x + (line_share(points, line, i)->0).x,
        ),
        displaced(distance_solved(points, seq![line]))[i].position.y == points[i].position.y
            + (line_share(points, line, i)->0).y || !representable(
            points[i].position.y + (line_share(points, line, i)->0).y,
        ),
{
    let lines = seq![line];
    let solved = distance_solved(points, lines);
    let share = line_share(points, line, i);
    lemma_distance_solved_keeps_kinematics(points, lines);
    assert(displaced(solved)[i] == displaced_point(solved[i]));
    law_proposals_see_positions_before(points, lines, i);
    assert(lines.drop_last() =~= Seq::<Line>::empty());
    assert(lines.last() == line);
    assert(absorbed_all(points[i], points, Seq::<Line>::empty(), i) == points[i]);
    assert(absorbed_all(points[i], points, lines, i) == absorbed(
        points[i],
        share,
        RELAXATION_PASSES as nat,
    ));
    assert(RELAXATION_PASSES == 5);
    lemma_absorbed_five(points[i], share->0);
    lemma_mean_of_five(points[i], absorbed(points[i], share, 5), share->0);
}

/// A point that holds five times a proposal moves by the proposal.
proof fn lemma_mean_of_five(before: Point, p: Point, proposal: Vec2)
    requires
        p.position == before.position,
        p.locked == before.locked,
        before.locked is None,
        p.displacement_weight == 5,
        p.displacement.x == 5 * proposal.x,
        p.displacement.y == 5 * proposal.y,
    ensures
        displaced_point(p).position.x == before.position.x + proposal.x || !representable(
            before.position.x + proposal.x,
        ),
        displaced_point(p).position.y == before.position.y + proposal.y || !representable(
            before.position.y + proposal.y,
        ),
{
}

/// After the distance solver and the displacement, a line that is alone
/// between two free points has set them the rest length apart, up to
/// rounding, however far apart they were: each end is where the line proposed
/// it, and their distance lies between the rest length less the shortfall
/// and the rest length with the excess.
pub proof fn law_free_line_settles_in_one_tick(points: Seq<Point>, line: Line)
    requires
        settles_in_range(points, line),
    ensures
        ({
            let start = points[line.start as int].position;
            let end = points[line.end as int].position;
            let rest = line.constraint.desired_distance;
            let after = displaced(distance_solved(points, seq![line]));
            let apart = distance_squared(
                after[line.start as int].position,
                after[line.end as int].position,
            );
            &&& after[line.start as int].position == start_candidate(start, end, false, rest)
            &&& after[line.end as int].position == end_candidate(start, end, false, rest)
            &&& apart <= square(
                rest + excess(rest as int, v_length(v_difference(end, start)) as int),
            )
            &&& rest <= shortfall(rest as int) || square(rest - shortfall(rest as int)) <= apart
        }),
{
    let s = line.start as int;
    let e = line.end as int;
    let start = points[s].position;
    let end = points[e].position;
    let rest = line.constraint.desired_distance;
    assert(line_share(points, line, s) == Some(start_proposal(points, line)));
    assert(line_share(points, line, e) == Some(end_proposal(points, line)));
    lemma_single_line_moves_its_end(points, line, s);
    lemma_single_line_moves_its_end(points, line, e);
    law_free_ends_are_set_rest_length_apart(start, end, rest);
    assert(RELAXATION_PASSES == 5);
}

} // verus!
