//! Integration, constraint relaxation, displacement and the world boundary.

use vstd::prelude::*;
use crate::components::physics::Defaults;
use crate::components::shapes::{Blob, Line, Point};
use crate::laws::averaging::law_proposals_see_positions_before;
use crate::util::fixed::{fx_difference, fx_div, fx_quotient, fx_sub};
use crate::util::shapes::{get_trapezoidal_area, trapezoidal_area};
use crate::util::vector::{
    v_clamped, v_difference, v_half, v_midpoint, v_normalized, v_perpendicular, v_scaled, v_share,
    v_sum, v_twice, v_zero, Vec2,
};

verus! {

/// How often each constraint is relaxed in one tick.
pub const RELAXATION_PASSES: u32 = 5;

/// The lowest coordinate inside the world.
pub const WORLD_MIN: i64 = 0;

/// The highest coordinate inside the world: 500.
pub const WORLD_MAX: i64 = 500_000_000;

// Integration

/// The gravity that acts on `p`: its own setting, or the default.
pub open spec fn gravity_of(p: Point, defaults: Defaults) -> i64 {
    match p.gravity {
        Some(gravity) => gravity.0,
        None => defaults.gravity.0,
    }
}

/// The friction that damps `p`: its own setting, or the default.
pub open spec fn friction_of(p: Point, defaults: Defaults) -> i64 {
    match p.friction {
        Some(friction) => friction.0,
        None => defaults.friction.0,
    }
}

/// What `p` moved by in the last step; nothing for a point that has not been
/// integrated yet.
pub open spec fn velocity_of(p: Point) -> Vec2 {
    match p.previous_position {
        Some(previous) => v_difference(p.position, previous),
        None => v_zero(),
    }
}

/// Gravity times mass, pointing along the vertical axis.
pub open spec fn acceleration_of(p: Point, defaults: Defaults) -> Vec2 {
    v_scaled(Vec2 { x: 0, y: gravity_of(p, defaults) }, p.mass)
}

/// Where the Verlet step takes `p`:
/// `position + velocity * friction + acceleration * dt * dt`.
pub open spec fn next_position(p: Point, defaults: Defaults, dt: i64) -> Vec2 {
    v_sum(
        p.position,
        v_sum(
            v_scaled(velocity_of(p), friction_of(p, defaults)),
            v_scaled(v_scaled(acceleration_of(p, defaults), dt), dt),
        ),
    )
}

/// `p` after one integration step of length `dt`. A locked point stays as it
/// is, and so does every point when no time has passed.
pub open spec fn integrated_point(p: Point, defaults: Defaults, dt: i64) -> Point {
    if p.locked is Some || dt == 0 {
        p
    } else {
        Point { position: next_position(p, defaults, dt), previous_position: Some(p.position), ..p }
    }
}

/// Every point after one integration step of length `dt`.
pub open spec fn integrated(points: Seq<Point>, defaults: Defaults, dt: i64) -> Seq<Point> {
    Seq::new(points.len(), |i: int| integrated_point(points[i], defaults, dt))
}

/// Advances one point by one integration step of length `dt`.
pub fn integrate_point(p: Point, defaults: Defaults, dt: i64) -> (r: Point)
    ensures
        r == integrated_point(p, defaults, dt),
{
    if p.locked.is_some() || dt == 0 {
        return p;
    }
    let position: Vec2 = p.position;
    let velocity: Vec2 = match p.previous_position {
        Some(previous) => position.minus(previous),
        None => Vec2::zero(),
    };
    let gravity: i64 = match p.gravity {
        Some(gravity) => gravity.0,
        None => defaults.gravity.0,
    };
    let friction: i64 = match p.friction {
        Some(friction) => friction.0,
        None => defaults.friction.0,
    };
    let acceleration: Vec2 = Vec2::new(0, gravity).scaled(p.mass);
    let step: Vec2 = velocity.scaled(friction).plus(acceleration.scaled(dt).scaled(dt));
    Point { position: position.plus(step), previous_position: Some(position), ..p }
}

/// Advances every free point by one Verlet step of length `dt`; with `dt`
/// zero nothing changes.
pub fn verlet_integration(points: &mut Vec<Point>, defaults: Defaults, dt: i64)
    ensures
        final(points)@ == integrated(old(points)@, defaults, dt),
{
    let n: usize = points.len();
    let mut i: usize = 0;
    while i < n
        invariant
            i <= n,
            n == points@.len(),
            n == old(points)@.len(),
            forall|j: int|
                0 <= j < i ==> points@[j] == integrated_point(old(points)@[j], defaults, dt),
            forall|j: int| i <= j < n ==> points@[j] == old(points)@[j],
        decreases n - i,
    {
        let p: Point = points[i];
        points.set(i, integrate_point(p, defaults, dt));
        i += 1;
    }
    assert(points@ =~= integrated(old(points)@, defaults, dt));
}

// Accumulation

/// Whether `a` and `b` agree in everything but what they have accumulated.
pub open spec fn same_kinematics(a: Point, b: Point) -> bool {
    &&& a.position == b.position
    &&& a.previous_position == b.previous_position
    &&& a.mass == b.mass
    &&& a.locked == b.locked
    &&& a.gravity == b.gravity
    &&& a.friction == b.friction
    &&& a.follow_mouse == b.follow_mouse
    &&& a.collide_with_mouse == b.collide_with_mouse
}

/// Whether two point stores agree, point by point, in everything but what
/// the points have accumulated.
pub open spec fn only_accumulators_differ(a: Seq<Point>, b: Seq<Point>) -> bool {
    &&& a.len() == b.len()
    &&& forall|i: int| 0 <= i < a.len() ==> same_kinematics(#[trigger] a[i], b[i])
}

/// `p` after one more proposal has been added to what it has accumulated.
/// A point that already holds as many proposals as can be counted ignores
/// further ones.
pub open spec fn accumulated(p: Point, proposal: Vec2) -> Point {
    if p.displacement_weight == u32::MAX {
        p
    } else {
        Point {
            displacement: v_sum(p.displacement, proposal),
            displacement_weight: (p.displacement_weight + 1) as u32,
            ..p
        }
    }
}

/// Adds one proposal to what `p` has accumulated.
pub fn accumulate(p: Point, proposal: Vec2) -> (r: Point)
    ensures
        r == accumulated(p, proposal),
{
    if p.displacement_weight == u32::MAX {
        p
    } else {
        Point {
            displacement: p.displacement.plus(proposal),
            displacement_weight: p.displacement_weight + 1,
            ..p
        }
    }
}

// Distance constraints

/// Whether `line` takes part in relaxation: both handles resolve, to two
/// different points, of which at least one is free to move.
pub open spec fn line_active(points: Seq<Point>, line: Line) -> bool {
    &&& line.start < points.len()
    &&& line.end < points.len()
    &&& line.start != line.end
    &&& !(points[line.start as int].locked is Some && points[line.end as int].locked is Some)
}

/// Half of the rest length, laid along the direction from start to end.
pub open spec fn line_correction(start: Vec2, end: Vec2, desired_distance: i64) -> Vec2 {
    v_half(v_scaled(v_normalized(v_difference(end, start)), desired_distance))
}

/// Where a line wants its start to be. With the end locked the start gets the
/// whole correction, measured from the end; otherwise half of it, measured
/// from the midpoint.
pub open spec fn start_candidate(
    start: Vec2,
    end: Vec2,
    end_locked: bool,
    desired_distance: i64,
) -> Vec2 {
    let correction = line_correction(start, end, desired_distance);
    if end_locked {
        v_sum(end, v_twice(correction))
    } else {
        v_sum(v_midpoint(start, end), correction)
    }
}

/// Where a line wants its end to be; the counterpart of [`start_candidate`].
pub open spec fn end_candidate(
    start: Vec2,
    end: Vec2,
    start_locked: bool,
    desired_distance: i64,
) -> Vec2 {
    let correction = line_correction(start, end, desired_distance);
    if start_locked {
        v_difference(start, v_twice(correction))
    } else {
        v_difference(v_midpoint(start, end), correction)
    }
}

/// The displacement that one pass of `line` proposes for its start.
pub open spec fn start_proposal(points: Seq<Point>, line: Line) -> Vec2 {
    let s = points[line.start as int];
    let e = points[line.end as int];
    v_difference(
        start_candidate(s.position, e.position, e.locked is Some, line.constraint.desired_distance),
        s.position,
    )
}

/// The displacement that one pass of `line` proposes for its end.
pub open spec fn end_proposal(points: Seq<Point>, line: Line) -> Vec2 {
    let s = points[line.start as int];
    let e = points[line.end as int];
    v_difference(
        end_candidate(s.position, e.position, s.locked is Some, line.constraint.desired_distance),
        e.position,
    )
}

/// The points after one relaxation pass of `line`: each free end of an active
/// line accumulates its proposal, and nothing else changes.
pub open spec fn relaxed_once(points: Seq<Point>, line: Line) -> Seq<Point> {
    if !line_active(points, line) {
        points
    } else {
        let s = line.start as int;
        let e = line.end as int;
        let with_start = if points[s].locked is Some {
            points
        } else {
            points.update(s, accumulated(points[s], start_proposal(points, line)))
        };
        if points[e].locked is Some {
            with_start
        } else {
            with_start.update(e, accumulated(points[e], end_proposal(points, line)))
        }
    }
}

/// The points after `passes` relaxation passes of `line`.
pub open spec fn relaxed(points: Seq<Point>, line: Line, passes: nat) -> Seq<Point>
    decreases passes,
{
    if passes == 0 {
        points
    } else {
        relaxed_once(relaxed(points, line, (passes - 1) as nat), line)
    }
}

/// The points after every line, in order, has been relaxed
/// [`RELAXATION_PASSES`] times.
pub open spec fn distance_solved(points: Seq<Point>, lines: Seq<Line>) -> Seq<Point>
    decreases lines.len(),
{
    if lines.len() == 0 {
        points
    } else {
        relaxed(distance_solved(points, lines.drop_last()), lines.last(), RELAXATION_PASSES as nat)
    }
}

/// What one pass of `line` proposes for the point `i`: nothing, unless the
/// line is active and `i` is a free end of it.
pub open spec fn line_share(points: Seq<Point>, line: Line, i: int) -> Option<Vec2> {
    if !line_active(points, line) || points[i].locked is Some {
        None
    } else if line.start == i {
        Some(start_proposal(points, line))
    } else if line.end == i {
        Some(end_proposal(points, line))
    } else {
        None
    }
}

/// `p` after it has accumulated the same proposal `passes` times.
pub open spec fn absorbed(p: Point, share: Option<Vec2>, passes: nat) -> Point
    decreases passes,
{
    if passes == 0 {
        p
    } else {
        match share {
            Some(proposal) => accumulated(absorbed(p, share, (passes - 1) as nat), proposal),
            None => p,
        }
    }
}

/// `p` after it has accumulated, line by line, what each of `lines` proposes
/// for the point `i` when all of them look at the positions in `points`.
pub open spec fn absorbed_all(p: Point, points: Seq<Point>, lines: Seq<Line>, i: int) -> Point
    decreases lines.len(),
{
    if lines.len() == 0 {
        p
    } else {
        absorbed(
            absorbed_all(p, points, lines.drop_last(), i),
            line_share(points, lines.last(), i),
            RELAXATION_PASSES as nat,
        )
    }
}

/// One relaxation pass leaves positions, masses and flags alone.
pub proof fn lemma_relaxed_once_keeps_kinematics(points: Seq<Point>, line: Line)
    ensures
        only_accumulators_differ(relaxed_once(points, line), points),
{
}

/// Any number of relaxation passes leaves positions, masses and flags alone.
pub proof fn lemma_relaxed_keeps_kinematics(points: Seq<Point>, line: Line, passes: nat)
    ensures
        only_accumulators_differ(relaxed(points, line, passes), points),
    decreases passes,
{
    if passes > 0 {
        lemma_relaxed_keeps_kinematics(points, line, (passes - 1) as nat);
        lemma_relaxed_once_keeps_kinematics(relaxed(points, line, (passes - 1) as nat), line);
    }
}

/// The distance solver leaves positions, masses and flags alone.
pub proof fn lemma_distance_solved_keeps_kinematics(points: Seq<Point>, lines: Seq<Line>)
    ensures
        only_accumulators_differ(distance_solved(points, lines), points),
    decreases lines.len(),
{
    if lines.len() > 0 {
        lemma_distance_solved_keeps_kinematics(points, lines.drop_last());
        lemma_relaxed_keeps_kinematics(
            distance_solved(points, lines.drop_last()),
            lines.last(),
            RELAXATION_PASSES as nat,
        );
    }
}

/// Runs one relaxation pass of `line`.
pub fn relax_line(points: &mut Vec<Point>, line: &Line)
    ensures
        final(points)@ == relaxed_once(old(points)@, *line),
{
    let n: usize = points.len();
    if line.start >= n || line.end >= n || line.start == line.end {
        return ;
    }
    let s: Point = points[line.start];
    let e: Point = points[line.end];
    let start_locked: bool = s.locked.is_some();
    let end_locked: bool = e.locked.is_some();
    if start_locked && end_locked {
        return ;
    }
    let midpoint: Vec2 = s.position.midpoint(e.position);
    let direction: Vec2 = e.position.minus(s.position).normalized();
    let correction: Vec2 = direction.scaled(line.constraint.desired_distance).halved();
    if !start_locked {
        let new_start: Vec2 = if end_locked {
            e.position.plus(correction.doubled())
        } else {
            midpoint.plus(correction)
        };
        points.set(line.start, accumulate(s, new_start.minus(s.position)));
    }
    if !end_locked {
        let new_end: Vec2 = if start_locked {
            s.position.minus(correction.doubled())
        } else {
            midpoint.minus(correction)
        };
        points.set(line.end, accumulate(e, new_end.minus(e.position)));
    }
}

/// Lets every line propose corrections for its free ends, without moving a
/// point: the proposals are accumulated for [`apply_displacement`]. Each
/// point accumulates, line by line, what the line proposes for it from the
/// positions that the points have when the solver starts.
pub fn apply_distance_constraint(lines: &Vec<Line>, points: &mut Vec<Point>)
    ensures
        final(points)@ == distance_solved(old(points)@, lines@),
        only_accumulators_differ(final(points)@, old(points)@),
        forall|i: int|
            0 <= i < old(points)@.len() ==> (#[trigger] final(points)@[i]) == absorbed_all(
                old(points)@[i],
                old(points)@,
                lines@,
                i,
            ),
{
    let mut k: usize = 0;
    while k < lines.len()
        invariant
            k <= lines.len(),
            points@ == distance_solved(old(points)@, lines@.take(k as int)),
        decreases lines.len() - k,
    {
        let line: Line = lines[k];
        let ghost before = points@;
        let mut pass: u32 = 0;
        while pass < RELAXATION_PASSES
            invariant
                pass <= RELAXATION_PASSES,
                points@ == relaxed(before, line, pass as nat),
            decreases RELAXATION_PASSES - pass,
        {
            relax_line(points, &line);
            pass += 1;
        }
        proof {
            assert(lines@.take(k + 1).drop_last() =~= lines@.take(k as int));
            assert(lines@.take(k + 1).last() == line);
        }
        k += 1;
    }
    proof {
        assert(lines@.take(lines.len() as int) =~= lines@);
        lemma_distance_solved_keeps_kinematics(old(points)@, lines@);
        assert forall|i: int| 0 <= i < old(points)@.len() implies (#[trigger] points@[i])
            == absorbed_all(old(points)@[i], old(points)@, lines@, i) by {
            law_proposals_see_positions_before(old(points)@, lines@, i);
        }
    }
}

// Area constraints

/// The positions of the points that `handles` name, in that order. A handle
/// that names no point stands for the origin.
pub open spec fn snapshot(points: Seq<Point>, handles: Seq<usize>) -> Seq<Vec2> {
    Seq::new(
        handles.len(),
        |i: int|
            if handles[i] < points.len() {
                points[handles[i] as int].position
            } else {
                v_zero()
            },
    )
}

/// How far each vertex of `blob` is pushed along its normal: the missing area
/// divided by the circumference.
pub open spec fn area_offset(points: Seq<Point>, blob: Blob, desired_area: i64) -> i64 {
    fx_quotient(
        fx_difference(desired_area, trapezoidal_area(snapshot(points, blob.points@))),
        blob.circumference as int,
    )
}

/// The vertex before vertex `i` on the loop.
pub open spec fn previous_index(len: int, i: int) -> int {
    if i == 0 {
        len - 1
    } else {
        i - 1
    }
}

/// The vertex after vertex `i` on the loop.
pub open spec fn next_index(len: int, i: int) -> int {
    (i + 1) % len
}

/// The push that vertex `i` of a loop receives: the secant between its two
/// neighbours, turned a quarter turn, brought to length one and scaled by
/// `offset`. A vertex whose neighbours coincide receives no push.
pub open spec fn vertex_push(positions: Seq<Vec2>, i: int, offset: i64) -> Vec2 {
    let previous = positions[previous_index(positions.len() as int, i)];
    let next = positions[next_index(positions.len() as int, i)];
    v_scaled(v_normalized(v_perpendicular(v_difference(next, previous))), offset)
}

/// The points after the first `k` vertices of a loop have accumulated their
/// pushes. A vertex whose handle names no point is passed over.
pub open spec fn area_pushed(
    points: Seq<Point>,
    handles: Seq<usize>,
    positions: Seq<Vec2>,
    offset: i64,
    k: nat,
) -> Seq<Point>
    decreases k,
{
    if k == 0 {
        points
    } else {
        let before = area_pushed(points, handles, positions, offset, (k - 1) as nat);
        let h = handles[k - 1] as int;
        if h < before.len() {
            before.update(h, accumulated(before[h], vertex_push(positions, k - 1, offset)))
        } else {
            before
        }
    }
}

/// Whether `blob` takes part in area relaxation: it has an area constraint
/// and at least three vertices.
pub open spec fn blob_active(blob: Blob) -> bool {
    blob.area_constraint is Some && blob.points@.len() >= 3
}

/// The points after one area relaxation pass of `blob`.
pub open spec fn area_relaxed_once(points: Seq<Point>, blob: Blob) -> Seq<Point> {
    if !blob_active(blob) {
        points
    } else {
        area_pushed(
            points,
            blob.points@,
            snapshot(points, blob.points@),
            area_offset(points, blob, blob.area_constraint->0.desired_area),
            blob.points@.len(),
        )
    }
}

/// The points after `passes` area relaxation passes of `blob`.
pub open spec fn area_relaxed(points: Seq<Point>, blob: Blob, passes: nat) -> Seq<Point>
    decreases passes,
{
    if passes == 0 {
        points
    } else {
        area_relaxed_once(area_relaxed(points, blob, (passes - 1) as nat), blob)
    }
}

/// The points after every blob, in order, has been relaxed
/// [`RELAXATION_PASSES`] times.
pub open spec fn area_solved(points: Seq<Point>, blobs: Seq<Blob>) -> Seq<Point>
    decreases blobs.len(),
{
    if blobs.len() == 0 {
        points
    } else {
        area_relaxed(area_solved(points, blobs.drop_last()), blobs.last(), RELAXATION_PASSES as nat)
    }
}

/// Pushing vertices leaves positions, masses and flags alone.
pub proof fn lemma_area_pushed_keeps_kinematics(
    points: Seq<Point>,
    handles: Seq<usize>,
    positions: Seq<Vec2>,
    offset: i64,
    k: nat,
)
    ensures
        only_accumulators_differ(area_pushed(points, handles, positions, offset, k), points),
    decreases k,
{
    if k > 0 {
        lemma_area_pushed_keeps_kinematics(points, handles, positions, offset, (k - 1) as nat);
    }
}

/// Any number of area relaxation passes leaves positions, masses and flags alone.
pub proof fn lemma_area_relaxed_keeps_kinematics(points: Seq<Point>, blob: Blob, passes: nat)
    ensures
        only_accumulators_differ(area_relaxed(points, blob, passes), points),
    decreases passes,
{
    if passes > 0 {
        lemma_area_relaxed_keeps_kinematics(points, blob, (passes - 1) as nat);
        let before = area_relaxed(points, blob, (passes - 1) as nat);
        if blob_active(blob) {
            lemma_area_pushed_keeps_kinematics(
                before,
                blob.points@,
                snapshot(before, blob.points@),
                area_offset(before, blob, blob.area_constraint->0.desired_area),
                blob.points@.len(),
            );
        }
    }
}

/// The area solver leaves positions, masses and flags alone.
pub proof fn lemma_area_solved_keeps_kinematics(points: Seq<Point>, blobs: Seq<Blob>)
    ensures
        only_accumulators_differ(area_solved(points, blobs), points),
    decreases blobs.len(),
{
    if blobs.len() > 0 {
        lemma_area_solved_keeps_kinematics(points, blobs.drop_last());
        lemma_area_relaxed_keeps_kinematics(
            area_solved(points, blobs.drop_last()),
            blobs.last(),
            RELAXATION_PASSES as nat,
        );
    }
}

/// Reads the positions of the points that `handles` name.
pub fn take_snapshot(points: &Vec<Point>, handles: &Vec<usize>) -> (positions: Vec<Vec2>)
    ensures
        positions@ == snapshot(points@, handles@),
{
    let mut positions: Vec<Vec2> = Vec::with_capacity(handles.len());
    let mut i: usize = 0;
    while i < handles.len()
        invariant
            i <= handles.len(),
            positions@.len() == i,
            forall|j: int| 0 <= j < i ==> positions@[j] == snapshot(points@, handles@)[j],
        decreases handles.len() - i,
    {
        let h: usize = handles[i];
        if h < points.len() {
            positions.push(points[h].position);
        } else {
            positions.push(Vec2::zero());
        }
        i += 1;
    }
    assert(positions@ =~= snapshot(points@, handles@));
    positions
}

/// Runs one area relaxation pass of `blob`.
pub fn relax_area(points: &mut Vec<Point>, blob: &Blob)
    ensures
        final(points)@ == area_relaxed_once(old(points)@, *blob),
{
    let len: usize = blob.points.len();
    let desired_area: i64 = match blob.area_constraint {
        Some(constraint) => constraint.desired_area,
        None => {
            return ;
        },
    };
    if len < 3 {
        return ;
    }
    let positions: Vec<Vec2> = take_snapshot(points, &blob.points);
    let current_area: i64 = get_trapezoidal_area(positions.as_slice());
    let error: i64 = fx_sub(desired_area, current_area);
    let offset: i64 = fx_div(error, blob.circumference);
    let mut i: usize = 0;
    while i < len
        invariant
            i <= len,
            len == blob.points@.len(),
            len == positions@.len(),
            points@ == area_pushed(old(points)@, blob.points@, positions@, offset, i as nat),
        decreases len - i,
    {
        let previous_idx: usize = if i == 0 {
            len - 1
        } else {
            i - 1
        };
        let next_idx: usize = (i + 1) % len;
        let secant: Vec2 = positions[next_idx].minus(positions[previous_idx]);
        let push: Vec2 = secant.perpendicular().normalized().scaled(offset);
        let h: usize = blob.points[i];
        if h < points.len() {
            let p: Point = points[h];
            points.set(h, accumulate(p, push));
        }
        i += 1;
    }
}

/// Lets every blob with an area constraint propose, for each of its
/// vertices, a push along the vertex normal, without moving a point: the
/// proposals are accumulated for [`apply_displacement`].
pub fn apply_area_constraint(blobs: &Vec<Blob>, points: &mut Vec<Point>)
    ensures
        final(points)@ == area_solved(old(points)@, blobs@),
        only_accumulators_differ(final(points)@, old(points)@),
{
    let mut k: usize = 0;
    while k < blobs.len()
        invariant
            k <= blobs.len(),
            points@ == area_solved(old(points)@, blobs@.take(k as int)),
        decreases blobs.len() - k,
    {
        let blob: &Blob = &blobs[k];
        let ghost before = points@;
        let mut pass: u32 = 0;
        while pass < RELAXATION_PASSES
            invariant
                pass <= RELAXATION_PASSES,
                points@ == area_relaxed(before, *blob, pass as nat),
            decreases RELAXATION_PASSES - pass,
        {
            relax_area(points, blob);
            pass += 1;
        }
        proof {
            assert(blobs@.take(k + 1).drop_last() =~= blobs@.take(k as int));
            assert(blobs@.take(k + 1).last() == *blob);
        }
        k += 1;
    }
    proof {
        assert(blobs@.take(blobs.len() as int) =~= blobs@);
        lemma_area_solved_keeps_kinematics(old(points)@, blobs@);
    }
}

// Displacement

/// `p` after it has taken the mean of what it accumulated. A locked point
/// keeps its position; either way nothing stays accumulated.
pub open spec fn displaced_point(p: Point) -> Point {
    if p.displacement_weight > 0 {
        Point {
            position: if p.locked is Some {
                p.position
            } else {
                v_sum(p.position, v_share(p.displacement, p.displacement_weight))
            },
            displacement: v_zero(),
            displacement_weight: 0,
            ..p
        }
    } else {
        p
    }
}

/// Every point after it has taken the mean of what it accumulated.
pub open spec fn displaced(points: Seq<Point>) -> Seq<Point> {
    Seq::new(points.len(), |i: int| displaced_point(points[i]))
}

/// Moves one point by the mean of what it accumulated and clears what it
/// accumulated.
pub fn displace_point(p: Point) -> (r: Point)
    ensures
        r == displaced_point(p),
{
    if p.displacement_weight > 0 {
        let position: Vec2 = if p.locked.is_some() {
            p.position
        } else {
            p.position.plus(p.displacement.shared(p.displacement_weight))
        };
        Point { position, displacement: Vec2::zero(), displacement_weight: 0, ..p }
    } else {
        p
    }
}

/// Moves every free point by the mean of the proposals it accumulated, and
/// leaves no point with anything accumulated.
pub fn apply_displacement(points: &mut Vec<Point>)
    ensures
        final(points)@ == displaced(old(points)@),
{
    let n: usize = points.len();
    let mut i: usize = 0;
    while i < n
        invariant
            i <= n,
            n == points@.len(),
            n == old(points)@.len(),
            forall|j: int| 0 <= j < i ==> points@[j] == displaced_point(old(points)@[j]),
            forall|j: int| i <= j < n ==> points@[j] == old(points)@[j],
        decreases n - i,
    {
        let p: Point = points[i];
        points.set(i, displace_point(p));
        i += 1;
    }
    assert(points@ =~= displaced(old(points)@));
}

// The world boundary

/// Whether the world boundary applies to `p`: to every free point, and to
/// every point that follows the probe.
pub open spec fn bounded(p: Point) -> bool {
    p.locked is None || p.follow_mouse is Some
}

/// `p` with its position brought back into the world.
pub open spec fn constrained_point(p: Point) -> Point {
    if bounded(p) {
        Point { position: v_clamped(p.position, WORLD_MIN, WORLD_MAX), ..p }
    } else {
        p
    }
}

/// Every point with its position brought back into the world.
pub open spec fn constrained(points: Seq<Point>) -> Seq<Point> {
    Seq::new(points.len(), |i: int| constrained_point(points[i]))
}

/// Brings one point back into the world, if the boundary applies to it.
pub fn constrain_point(p: Point) -> (r: Point)
    ensures
        r == constrained_point(p),
{
    if p.locked.is_none() || p.follow_mouse.is_some() {
        Point { position: p.position.clamped(WORLD_MIN, WORLD_MAX), ..p }
    } else {
        p
    }
}

/// Confines every free point, and every point that follows the probe, to the
/// world: each coordinate on its own is brought into
/// [`WORLD_MIN`]`..=`[`WORLD_MAX`].
pub fn constrain_to_world(points: &mut Vec<Point>)
    ensures
        final(points)@ == constrained(old(points)@),
{
    let n: usize = points.len();
    let mut i: usize = 0;
    while i < n
        invariant
            i <= n,
            n == points@.len(),
            n == old(points)@.len(),
            forall|j: int| 0 <= j < i ==> points@[j] == constrained_point(old(points)@[j]),
            forall|j: int| i <= j < n ==> points@[j] == old(points)@[j],
        decreases n - i,
    {
        let p: Point = points[i];
        points.set(i, constrain_point(p));
        i += 1;
    }
    assert(points@ =~= constrained(old(points)@));
}

} // verus!
