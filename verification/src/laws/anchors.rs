//! What a tick leaves alone.

use vstd::prelude::*;
use crate::components::physics::Defaults;
use crate::components::shapes::{Blob, Line, Point};
use crate::systems::mouse::{collided, followed};
use crate::systems::physics::{
    area_solved, constrained, displaced, distance_solved, integrated, integrated_point,
    lemma_area_solved_keeps_kinematics, lemma_distance_solved_keeps_kinematics,
};
use crate::util::vector::Vec2;
use crate::world::{run, ticked, TickInput};

verus! {

/// Whether `a` and `b` have the same mass and the same flags and settings.
pub open spec fn same_settings(a: Point, b: Point) -> bool {
    &&& a.mass == b.mass
    &&& a.locked == b.locked
    &&& a.gravity == b.gravity
    &&& a.friction == b.friction
    &&& a.follow_mouse == b.follow_mouse
    &&& a.collide_with_mouse == b.collide_with_mouse
}

/// Whether `p` is an anchor: locked, and not placed by the probe.
pub open spec fn anchored(p: Point) -> bool {
    p.locked is Some && p.follow_mouse is None
}

/// A tick neither adds nor removes a point, and changes no mass and no flag.
/// It leaves every anchor where it is.
pub proof fn law_tick_keeps_settings(
    points: Seq<Point>,
    lines: Seq<Line>,
    blobs: Seq<Blob>,
    defaults: Defaults,
    dt: i64,
    probe: Option<Vec2>,
)
    ensures
        ticked(points, lines, blobs, defaults, dt, probe).len() == points.len(),
        forall|i: int|
            0 <= i < points.len() ==> same_settings(
                #[trigger] ticked(points, lines, blobs, defaults, dt, probe)[i],
                points[i],
            ),
        forall|i: int|
            0 <= i < points.len() && anchored(points[i]) ==> (#[trigger] ticked(
                points,
                lines,
                blobs,
                defaults,
                dt,
                probe,
            )[i]).position == points[i].position,
{
    let a = integrated(points, defaults, dt);
    let b = distance_solved(a, lines);
    let c = area_solved(b, blobs);
    let d = displaced(c);
    let e = followed(d, probe);
    let f = collided(e, probe);
    let g = constrained(f);
    lemma_distance_solved_keeps_kinematics(a, lines);
    lemma_area_solved_keeps_kinematics(b, blobs);
    assert(g == ticked(points, lines, blobs, defaults, dt, probe));
    assert forall|i: int| 0 <= i < points.len() implies same_settings(#[trigger] g[i], points[i])
        && (anchored(points[i]) ==> g[i].position == points[i].position) by {
        assert(a[i] == integrated_point(points[i], defaults, dt));
        assert(same_settings(b[i], a[i]) && b[i].position == a[i].position);
        assert(same_settings(c[i], b[i]) && c[i].position == b[i].position);
        assert(same_settings(d[i], c[i]));
        assert(same_settings(e[i], d[i]));
        assert(same_settings(f[i], e[i]));
        assert(same_settings(g[i], f[i]));
    }
}

/// A locked point that the probe does not place is where it was after any
/// number of ticks, whatever constraints it takes part in and whatever the
/// ticks are given.
pub proof fn law_locked_point_stays(
    points: Seq<Point>,
    lines: Seq<Line>,
    blobs: Seq<Blob>,
    defaults: Defaults,
    inputs: Seq<TickInput>,
    i: int,
)
    requires
        0 <= i < points.len(),
        points[i].locked is Some,
        points[i].follow_mouse is None,
    ensures
        run(points, lines, blobs, defaults, inputs).len() == points.len(),
        run(points, lines, blobs, defaults, inputs)[i].position == points[i].position,
        run(points, lines, blobs, defaults, inputs)[i].locked is Some,
        run(points, lines, blobs, defaults, inputs)[i].follow_mouse is None,
    decreases inputs.len(),
{
    if inputs.len() > 0 {
        law_locked_point_stays(points, lines, blobs, defaults, inputs.drop_last(), i);
        law_tick_keeps_settings(
            run(points, lines, blobs, defaults, inputs.drop_last()),
            lines,
            blobs,
            defaults,
            inputs.last().dt,
            inputs.last().probe,
        );
    }
}

} // verus!
