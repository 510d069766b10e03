//! Loops that already enclose their area.

use vstd::prelude::*;
use crate::components::shapes::{Blob, Point};
use crate::systems::physics::{
    accumulated, area_offset, area_pushed, area_relaxed, area_solved, blob_active, displaced, displaced_point, lemma_area_relaxed_keeps_kinematics,
    lemma_area_solved_keeps_kinematics, only_accumulators_differ, snapshot, vertex_push,
    RELAXATION_PASSES,
};
use crate::util::shapes::trapezoidal_area;
use crate::util::vector::{v_zero, Vec2};

verus! {

/// Whether no point holds a sum of proposals.
pub open spec fn nothing_summed(points: Seq<Point>) -> bool {
    forall|i: int| 0 <= i < points.len() ==> (#[trigger] points[i]).displacement == v_zero()
}

/// Whether `blob` asks for no change: it has no area constraint, or the loop
/// encloses exactly the area it is held to.
pub open spec fn at_its_area(points: Seq<Point>, blob: Blob) -> bool {
    blob.area_constraint is Some ==> trapezoidal_area(snapshot(points, blob.points@))
        == blob.area_constraint->0.desired_area
}

/// A loop that encloses its area is pushed nowhere.
proof fn lemma_no_missing_area_no_push(points: Seq<Point>, blob: Blob, positions: Seq<Vec2>, i: int)
    requires
        blob.area_constraint is Some,
        at_its_area(points, blob),
    ensures
        area_offset(points, blob, blob.area_constraint->0.desired_area) == 0,
        vertex_push(positions, i, 0) == v_zero(),
{
    let c = blob.circumference as int;
    if c != 0 {
        assert(0int / c == 0) by (nonlinear_arith)
            requires
                c != 0,
        ;
    }
    assert(forall|x: i64| #[trigger] (x * 0) == 0) by (nonlinear_arith);
}

/// Adding the origin to what a point holds leaves the sum as it is.
proof fn lemma_accumulating_nothing(p: Point)
    requires
        p.displacement == v_zero(),
    ensures
        accumulated(p, v_zero()).displacement == v_zero(),
{
}

/// Pushes of length zero leave every sum at zero.
proof fn lemma_pushed_nowhere(
    points: Seq<Point>,
    blob: Blob,
    handles: Seq<usize>,
    positions: Seq<Vec2>,
    k: nat,
)
    requires
        nothing_summed(points),
        blob.area_constraint is Some,
        at_its_area(points, blob),
    ensures
        nothing_summed(area_pushed(points, handles, positions, 0, k)),
        area_pushed(points, handles, positions, 0, k).len() == points.len(),
    decreases k,
{
    if k > 0 {
        let before = area_pushed(points, handles, positions, 0, (k - 1) as nat);
        lemma_pushed_nowhere(points, blob, handles, positions, (k - 1) as nat);
        lemma_no_missing_area_no_push(points, blob, positions, k - 1);
        let h = handles[k - 1] as int;
        if h < before.len() {
            lemma_accumulating_nothing(before[h]);
        }
    }
}

/// Relaxing a loop that encloses its area leaves every sum at zero.
proof fn lemma_relaxed_at_its_area(points: Seq<Point>, blob: Blob, passes: nat)
    requires
        nothing_summed(points),
        at_its_area(points, blob),
    ensures
        nothing_summed(area_relaxed(points, blob, passes)),
        only_accumulators_differ(area_relaxed(points, blob, passes), points),
    decreases passes,
{
    lemma_area_relaxed_keeps_kinematics(points, blob, passes);
    if passes > 0 {
        let before = area_relaxed(points, blob, (passes - 1) as nat);
        lemma_relaxed_at_its_area(points, blob, (passes - 1) as nat);
        if blob_active(blob) {
            assert(snapshot(before, blob.points@) =~= snapshot(points, blob.points@));
            lemma_no_missing_area_no_push(before, blob, snapshot(before, blob.points@), 0);
            lemma_pushed_nowhere(
                before,
                blob,
                blob.points@,
                snapshot(before, blob.points@),
                blob.points@.len(),
            );
        }
    }
}

/// Loops that enclose their areas are left alone: where every blob with an
/// area constraint encloses exactly the area it is held to, the area solver
/// and the displacement move no point.
pub proof fn law_loops_at_their_area_rest(points: Seq<Point>, blobs: Seq<Blob>)
    requires
        nothing_summed(points),
        forall|j: int| 0 <= j < blobs.len() ==> at_its_area(points, #[trigger] blobs[j]),
    ensures
        nothing_summed(area_solved(points, blobs)),
        displaced(area_solved(points, blobs)).len() == points.len(),
        forall|i: int|
            0 <= i < points.len() ==> (#[trigger] displaced(area_solved(points, blobs))[i]).position
                == points[i].position,
    decreases blobs.len(),
{
    lemma_area_solved_keeps_kinematics(points, blobs);
    if blobs.len() > 0 {
        let before = area_solved(points, blobs.drop_last());
        let blob = blobs.last();
        assert forall|j: int| 0 <= j < blobs.drop_last().len() implies at_its_area(
            points,
            #[trigger] blobs.drop_last()[j],
        ) by {
            assert(blobs.drop_last()[j] == blobs[j]);
        }
        law_loops_at_their_area_rest(points, blobs.drop_last());
        lemma_area_solved_keeps_kinematics(points, blobs.drop_last());
        assert(snapshot(before, blob.points@) =~= snapshot(points, blob.points@));
        lemma_relaxed_at_its_area(before, blob, RELAXATION_PASSES as nat);
    }
    let solved = area_solved(points, blobs);
    assert forall|i: int| 0 <= i < points.len() implies (#[trigger] displaced(solved)[i]).position
        == points[i].position by {
        assert(displaced(solved)[i] == displaced_point(solved[i]));
        let w = solved[i].displacement_weight as int;
        if w > 0 {
            assert(0int / w == 0) by (nonlinear_arith)
                requires
                    w > 0,
            ;
        }
    }
}

} // verus!
