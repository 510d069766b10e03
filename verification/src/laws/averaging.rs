//! How the proposals of several lines meet in one point.

use vstd::prelude::*;
use crate::components::shapes::{Line, Point};
use crate::systems::physics::{
    absorbed, absorbed_all, displaced, displaced_point, distance_solved,
    lemma_distance_solved_keeps_kinematics, lemma_relaxed_keeps_kinematics, line_share,
    only_accumulators_differ, relaxed, relaxed_once, same_kinematics, RELAXATION_PASSES,
};
use crate::util::fixed::{representable, trunc_div};
use crate::util::vector::{v_sum, v_zero, Vec2};

verus! {

/// What a line proposes depends on positions and locks alone.
pub proof fn lemma_share_ignores_accumulators(
    a: Seq<Point>,
    b: Seq<Point>,
    line: Line,
    i: int,
)
    requires
        only_accumulators_differ(a, b),
        0 <= i < a.len(),
    ensures
        line_share(a, line, i) == line_share(b, line, i),
{
    if line.start < a.len() && line.end < a.len() {
        let s = line.start as int;
        let e = line.end as int;
        assert(a[s].position == b[s].position && a[s].locked == b[s].locked);
        assert(a[e].position == b[e].position && a[e].locked == b[e].locked);
        assert(a[i].locked == b[i].locked);
    }
}

/// One pass of a line gives each point what the line proposes for it.
pub proof fn lemma_relaxed_once_pointwise(points: Seq<Point>, line: Line, i: int)
    requires
        0 <= i < points.len(),
    ensures
        relaxed_once(points, line)[i] == absorbed(points[i], line_share(points, line, i), 1),
{
    reveal_with_fuel(absorbed, 2);
}

/// Several passes of a line give each point the same proposal each time.
pub proof fn lemma_relaxed_pointwise(points: Seq<Point>, line: Line, passes: nat, i: int)
    requires
        0 <= i < points.len(),
    ensures
        relaxed(points, line, passes)[i] == absorbed(
            points[i],
            line_share(points, line, i),
            passes,
        ),
    decreases passes,
{
    if passes > 0 {
        let before = relaxed(points, line, (passes - 1) as nat);
        lemma_relaxed_pointwise(points, line, (passes - 1) as nat, i);
        lemma_relaxed_keeps_kinematics(points, line, (passes - 1) as nat);
        lemma_share_ignores_accumulators(before, points, line, i);
        lemma_relaxed_once_pointwise(before, line, i);
        reveal_with_fuel(absorbed, 2);
    }
}

/// Every line makes its proposals from the positions that the points had
/// before the first line was relaxed: what a point has accumulated after the
/// distance solver does not depend on what the solver did to other points, nor
/// on accumulations made on the way.
pub proof fn law_proposals_see_positions_before(points: Seq<Point>, lines: Seq<Line>, i: int)
    requires
        0 <= i < points.len(),
    ensures
        distance_solved(points, lines)[i] == absorbed_all(points[i], points, lines, i),
    decreases lines.len(),
{
    if lines.len() > 0 {
        let before = distance_solved(points, lines.drop_last());
        law_proposals_see_positions_before(points, lines.drop_last(), i);
        lemma_distance_solved_keeps_kinematics(points, lines.drop_last());
        lemma_relaxed_pointwise(before, lines.last(), RELAXATION_PASSES as nat, i);
        lemma_share_ignores_accumulators(before, points, lines.last(), i);
    }
}

/// Whether three proposals, each made [`RELAXATION_PASSES`] times, can be
/// summed without reaching the end of the scalar range.
pub open spec fn summable(a: Vec2, b: Vec2, c: Vec2) -> bool {
    &&& representable(RELAXATION_PASSES * a.x)
    &&& representable(RELAXATION_PASSES * (a.x + b.x))
    &&& representable(RELAXATION_PASSES * (a.x + b.x + c.x))
    &&& representable(RELAXATION_PASSES * a.y)
    &&& representable(RELAXATION_PASSES * (a.y + b.y))
    &&& representable(RELAXATION_PASSES * (a.y + b.y + c.y))
}

/// The mean of three displacements, rounded toward zero.
pub open spec fn mean_of_three(a: Vec2, b: Vec2, c: Vec2) -> Vec2 {
    Vec2 {
        x: trunc_div(a.x + b.x + c.x, 3) as i64,
        y: trunc_div(a.y + b.y + c.y, 3) as i64,
    }
}

/// A free point with nothing accumulated that is an end of three lines moves
/// by the mean of the three displacements that the lines propose for it: it
/// ends at the average of the three positions proposed, not at the one
/// proposed last. The sums must stay inside the scalar range.
pub proof fn law_shared_point_takes_the_mean(
    points: Seq<Point>,
    first: Line,
    second: Line,
    third: Line,
    i: int,
)
    requires
        0 <= i < points.len(),
        points[i].displacement == v_zero(),
        points[i].displacement_weight == 0,
        line_share(points, first, i) is Some,
        line_share(points, second, i) is Some,
        line_share(points, third, i) is Some,
        summable(
            line_share(points, first, i)->0,
            line_share(points, second, i)->0,
            line_share(points, third, i)->0,
        ),
    ensures
        displaced(distance_solved(points, seq![first, second, third]))[i].position == v_sum(
            points[i].position,
            mean_of_three(
                line_share(points, first, i)->0,
                line_share(points, second, i)->0,
                line_share(points, third, i)->0,
            ),
        ),
{
    let lines = seq![first, second, third];
    let solved = distance_solved(points, lines);
    lemma_distance_solved_keeps_kinematics(points, lines);
    assert(displaced(solved)[i] == displaced_point(solved[i]));
    law_proposals_see_positions_before(points, lines, i);
    lemma_absorbed_all_three(points[i], points, first, second, third, i);
    lemma_mean_of_absorbed(
        points[i],
        line_share(points, first, i)->0,
        line_share(points, second, i)->0,
        line_share(points, third, i)->0,
    );
}

/// A free point that absorbs three proposals moves by their mean.
proof fn lemma_mean_of_absorbed(p: Point, a: Vec2, b: Vec2, c: Vec2)
    requires
        p.displacement == v_zero(),
        p.displacement_weight == 0,
        p.locked is None,
        summable(a, b, c),
    ensures
        displaced_point(
            absorbed(
                absorbed(
                    absorbed(p, Some(a), RELAXATION_PASSES as nat),
                    Some(b),
                    RELAXATION_PASSES as nat,
                ),
                Some(c),
                RELAXATION_PASSES as nat,
            ),
        ).position == v_sum(p.position, mean_of_three(a, b, c)),
{
    assert(RELAXATION_PASSES == 5);
    let p1 = absorbed(p, Some(a), 5);
    let p2 = absorbed(p1, Some(b), 5);
    let p3 = absorbed(p2, Some(c), 5);
    lemma_absorbed_five(p, a);
    lemma_absorbed_five(p1, b);
    lemma_absorbed_five(p2, c);
    lemma_share_of_multiple(a.x + b.x + c.x);
    lemma_share_of_multiple(a.y + b.y + c.y);
}

/// Three lines are absorbed one after the other.
proof fn lemma_absorbed_all_three(
    p: Point,
    points: Seq<Point>,
    first: Line,
    second: Line,
    third: Line,
    i: int,
)
    ensures
        absorbed_all(p, points, seq![first, second, third], i) == absorbed(
            absorbed(
                absorbed(p, line_share(points, first, i), RELAXATION_PASSES as nat),
                line_share(points, second, i),
                RELAXATION_PASSES as nat,
            ),
            line_share(points, third, i),
            RELAXATION_PASSES as nat,
        ),
{
    let lines = seq![first, second, third];
    assert(lines.drop_last() =~= seq![first, second]);
    assert(seq![first, second].drop_last() =~= seq![first]);
    assert(seq![first].drop_last() =~= Seq::<Line>::empty());
    assert(lines.last() == third);
    assert(seq![first, second].last() == second);
    assert(seq![first].last() == first);
    assert(absorbed_all(p, points, Seq::<Line>::empty(), i) == p);
    assert(absorbed_all(p, points, seq![first], i) == absorbed(
        p,
        line_share(points, first, i),
        RELAXATION_PASSES as nat,
    ));
    assert(absorbed_all(p, points, seq![first, second], i) == absorbed(
        absorbed_all(p, points, seq![first], i),
        line_share(points, second, i),
        RELAXATION_PASSES as nat,
    ));
}

/// Five equal proposals add five times their value, as long as the sum stays
/// inside the scalar range.
pub proof fn lemma_absorbed_five(p: Point, proposal: Vec2)
    requires
        p.displacement_weight <= 1000,
        representable(p.displacement.x + 5 * proposal.x),
        representable(p.displacement.y + 5 * proposal.y),
    ensures
        absorbed(p, Some(proposal), 5).displacement_weight == p.displacement_weight + 5,
        absorbed(p, Some(proposal), 5).displacement.x == p.displacement.x + 5 * proposal.x,
        absorbed(p, Some(proposal), 5).displacement.y == p.displacement.y + 5 * proposal.y,
        same_kinematics(absorbed(p, Some(proposal), 5), p),
{
    reveal_with_fuel(absorbed, 6);
}

/// A fifteenth of five times a number is a third of the number.
proof fn lemma_share_of_multiple(s: int)
    ensures
        trunc_div(5 * s, 15) == trunc_div(s, 3),
{
}

} // verus!
