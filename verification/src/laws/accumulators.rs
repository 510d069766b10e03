//! What the points accumulate, and that a tick leaves none of it behind.

use vstd::prelude::*;
use crate::components::physics::Defaults;
use crate::components::shapes::{Blob, Line, Point};
use crate::systems::mouse::{collided, followed};
use crate::systems::physics::{
    area_offset, area_pushed, area_relaxed, area_relaxed_once, area_solved, blob_active,
    constrained, displaced, distance_solved, integrated, integrated_point,
    lemma_area_relaxed_keeps_kinematics, only_accumulators_differ, relaxed, relaxed_once,
    snapshot, RELAXATION_PASSES,
};
use crate::util::vector::{v_zero, Vec2};
use crate::world::ticked;

verus! {

/// Whether `after` holds what `before` held and possibly more: its count is
/// no lower, and where the count is the same, so is the sum.
pub open spec fn accumulation_grew(after: Point, before: Point) -> bool {
    &&& after.displacement_weight >= before.displacement_weight
    &&& after.displacement_weight == before.displacement_weight ==> after.displacement
        == before.displacement
}

/// Whether every point of `after` holds what it held in `before` and
/// possibly more.
pub open spec fn accumulations_grew(after: Seq<Point>, before: Seq<Point>) -> bool {
    &&& after.len() == before.len()
    &&& forall|i: int| 0 <= i < after.len() ==> accumulation_grew(#[trigger] after[i], before[i])
}

/// Relaxing a line only adds to what the points hold.
pub proof fn lemma_relaxed_grows(points: Seq<Point>, line: Line, passes: nat)
    ensures
        accumulations_grew(relaxed(points, line, passes), points),
    decreases passes,
{
    if passes > 0 {
        let before = relaxed(points, line, (passes - 1) as nat);
        lemma_relaxed_grows(points, line, (passes - 1) as nat);
        assert(accumulations_grew(relaxed_once(before, line), before));
    }
}

/// The distance solver only adds to what the points hold.
pub proof fn lemma_distance_solved_grows(points: Seq<Point>, lines: Seq<Line>)
    ensures
        accumulations_grew(distance_solved(points, lines), points),
    decreases lines.len(),
{
    if lines.len() > 0 {
        lemma_distance_solved_grows(points, lines.drop_last());
        lemma_relaxed_grows(
            distance_solved(points, lines.drop_last()),
            lines.last(),
            RELAXATION_PASSES as nat,
        );
    }
}

/// Pushing the vertices of a loop only adds to what the points hold.
pub proof fn lemma_area_pushed_grows(
    points: Seq<Point>,
    handles: Seq<usize>,
    positions: Seq<Vec2>,
    offset: i64,
    k: nat,
)
    ensures
        accumulations_grew(area_pushed(points, handles, positions, offset, k), points),
    decreases k,
{
    if k > 0 {
        lemma_area_pushed_grows(points, handles, positions, offset, (k - 1) as nat);
    }
}

/// Relaxing a blob only adds to what the points hold.
pub proof fn lemma_area_relaxed_grows(points: Seq<Point>, blob: Blob, passes: nat)
    ensures
        accumulations_grew(area_relaxed(points, blob, passes), points),
    decreases passes,
{
    if passes > 0 {
        let before = area_relaxed(points, blob, (passes - 1) as nat);
        lemma_area_relaxed_grows(points, blob, (passes - 1) as nat);
        if blob_active(blob) {
            lemma_area_pushed_grows(
                before,
                blob.points@,
                snapshot(before, blob.points@),
                area_offset(before, blob, blob.area_constraint->0.desired_area),
                blob.points@.len(),
            );
        }
        assert(accumulations_grew(area_relaxed_once(before, blob), before));
    }
}

/// The area solver only adds to what the points hold.
pub proof fn lemma_area_solved_grows(points: Seq<Point>, blobs: Seq<Blob>)
    ensures
        accumulations_grew(area_solved(points, blobs), points),
    decreases blobs.len(),
{
    if blobs.len() > 0 {
        lemma_area_solved_grows(points, blobs.drop_last());
        lemma_area_relaxed_grows(
            area_solved(points, blobs.drop_last()),
            blobs.last(),
            RELAXATION_PASSES as nat,
        );
    }
}

/// Whether `p` enters a tick as a tick leaves it: with nothing counted it
/// holds no sum.
pub open spec fn consistent(p: Point) -> bool {
    p.displacement_weight == 0 ==> p.displacement == v_zero()
}

/// What is accumulated in a tick does not outlive it: after a tick no point
/// has anything counted, and no point that was consistent before holds a sum.
pub proof fn law_tick_leaves_nothing_accumulated(
    points: Seq<Point>,
    lines: Seq<Line>,
    blobs: Seq<Blob>,
    defaults: Defaults,
    dt: i64,
    probe: Option<Vec2>,
)
    ensures
        ticked(points, lines, blobs, defaults, dt, probe).len() == points.len(),
        forall|i: int|
            0 <= i < points.len() ==> (#[trigger] ticked(
                points,
                lines,
                blobs,
                defaults,
                dt,
                probe,
            )[i]).displacement_weight == 0,
        forall|i: int|
            0 <= i < points.len() && consistent(points[i]) ==> (#[trigger] ticked(
                points,
                lines,
                blobs,
                defaults,
                dt,
                probe,
            )[i]).displacement == v_zero(),
{
    let a = integrated(points, defaults, dt);
    let b = distance_solved(a, lines);
    let c = area_solved(b, blobs);
    let d = displaced(c);
    let e = followed(d, probe);
    let f = collided(e, probe);
    let g = constrained(f);
    lemma_distance_solved_grows(a, lines);
    lemma_area_solved_grows(b, blobs);
    assert(g == ticked(points, lines, blobs, defaults, dt, probe));
    assert forall|i: int| 0 <= i < points.len() implies (#[trigger] g[i]).displacement_weight == 0
        && (consistent(points[i]) ==> g[i].displacement == v_zero()) by {
        assert(a[i] == integrated_point(points[i], defaults, dt));
        assert(accumulation_grew(b[i], a[i]));
        assert(accumulation_grew(c[i], b[i]));
        assert(g[i].displacement == d[i].displacement);
        assert(g[i].displacement_weight == d[i].displacement_weight);
    }
}

/// Every pass of the area solver over a blob sees the positions that the
/// points had before the first pass: the passes make the same proposals, and
/// add up only in what the points accumulate.
pub proof fn law_area_passes_see_positions_before(points: Seq<Point>, blob: Blob, passes: nat)
    ensures
        only_accumulators_differ(area_relaxed(points, blob, passes), points),
        snapshot(area_relaxed(points, blob, passes), blob.points@) == snapshot(
            points,
            blob.points@,
        ),
        forall|desired_area: i64|
            area_offset(area_relaxed(points, blob, passes), blob, desired_area) == area_offset(
                points,
                blob,
                desired_area,
            ),
{
    lemma_area_relaxed_keeps_kinematics(points, blob, passes);
    assert(snapshot(area_relaxed(points, blob, passes), blob.points@) =~= snapshot(
        points,
        blob.points@,
    ));
}

} // verus!
