//! What the probe does to the points that are tied to it.

use vstd::prelude::*;
use crate::components::shapes::Point;
use crate::util::vector::{v_difference, v_length, v_normalized, v_scaled, v_sum, Vec2};

verus! {

/// How close the probe lets a colliding point come: 50.
pub const PROBE_RADIUS: i64 = 50_000_000;

/// `p` after the probe has placed it. `probe` is where the probe is while it
/// is active, and `None` otherwise.
pub open spec fn followed_point(p: Point, probe: Option<Vec2>) -> Point {
    match probe {
        Some(at) => if p.follow_mouse is Some {
            Point { position: at, ..p }
        } else {
            p
        },
        None => p,
    }
}

/// Every point after the probe has placed its followers.
pub open spec fn followed(points: Seq<Point>, probe: Option<Vec2>) -> Seq<Point> {
    Seq::new(points.len(), |i: int| followed_point(points[i], probe))
}

/// Whether a probe at `at` pushes `p` away: `p` collides with the probe, is
/// free to move and lies less than [`PROBE_RADIUS`] from it.
pub open spec fn pushed_by(p: Point, at: Vec2) -> bool {
    &&& p.collide_with_mouse is Some
    &&& p.locked is None
    &&& v_length(v_difference(p.position, at)) < PROBE_RADIUS
}

/// The point at distance [`PROBE_RADIUS`] from `at` in the direction of
/// `position`; `at` itself where the two coincide.
pub open spec fn pushed_position(position: Vec2, at: Vec2) -> Vec2 {
    v_sum(at, v_scaled(v_normalized(v_difference(position, at)), PROBE_RADIUS))
}

/// `p` after the probe has pushed it away.
pub open spec fn collided_point(p: Point, probe: Option<Vec2>) -> Point {
    match probe {
        Some(at) => if pushed_by(p, at) {
            Point { position: pushed_position(p.position, at), ..p }
        } else {
            p
        },
        None => p,
    }
}

/// Every point after the probe has pushed away the points that collide with it.
pub open spec fn collided(points: Seq<Point>, probe: Option<Vec2>) -> Seq<Point> {
    Seq::new(points.len(), |i: int| collided_point(points[i], probe))
}

/// Places one point at the probe, if it follows the probe and the probe is active.
pub fn follow_point(p: Point, probe: Option<Vec2>) -> (r: Point)
    ensures
        r == followed_point(p, probe),
{
    match probe {
        Some(at) => {
            if p.follow_mouse.is_some() {
                Point { position: at, ..p }
            } else {
                p
            }
        },
        None => p,
    }
}

/// Places every point that follows the probe at the probe. Without an active
/// probe nothing changes.
pub fn follow_mouse(points: &mut Vec<Point>, probe: Option<Vec2>)
    ensures
        final(points)@ == followed(old(points)@, probe),
{
    let n: usize = points.len();
    let mut i: usize = 0;
    while i < n
        invariant
            i <= n,
            n == points@.len(),
            n == old(points)@.len(),
            forall|j: int| 0 <= j < i ==> points@[j] == followed_point(old(points)@[j], probe),
            forall|j: int| i <= j < n ==> points@[j] == old(points)@[j],
        decreases n - i,
    {
        let p: Point = points[i];
        points.set(i, follow_point(p, probe));
        i += 1;
    }
    assert(points@ =~= followed(old(points)@, probe));
}

/// Pushes one point away from the probe, if it collides with the probe and
/// is too close to it.
pub fn collide_point(p: Point, probe: Option<Vec2>) -> (r: Point)
    ensures
        r == collided_point(p, probe),
{
    match probe {
        Some(at) => {
            if p.collide_with_mouse.is_some() && p.locked.is_none() {
                let separation: Vec2 = p.position.minus(at);
                if separation.length() < PROBE_RADIUS as u64 {
                    let difference: Vec2 = separation.normalized().scaled(PROBE_RADIUS);
                    Point { position: at.plus(difference), ..p }
                } else {
                    p
                }
            } else {
                p
            }
        },
        None => p,
    }
}

/// Pushes every free point that collides with the probe and lies within
/// [`PROBE_RADIUS`] of it out to that distance, along the line from the probe
/// to the point. Without an active probe nothing changes.
pub fn collide_with_mouse(points: &mut Vec<Point>, probe: Option<Vec2>)
    ensures
        final(points)@ == collided(old(points)@, probe),
{
    let n: usize = points.len();
    let mut i: usize = 0;
    while i < n
        invariant
            i <= n,
            n == points@.len(),
            n == old(points)@.len(),
            forall|j: int| 0 <= j < i ==> points@[j] == collided_point(old(points)@[j], probe),
            forall|j: int| i <= j < n ==> points@[j] == old(points)@[j],
        decreases n - i,
    {
        let p: Point = points[i];
        points.set(i, collide_point(p, probe));
        i += 1;
    }
    assert(points@ =~= collided(old(points)@, probe));
}

} // verus!
