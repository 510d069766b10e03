//! Scene construction: ropes and blobs.

use vstd::prelude::*;
use crate::components::mouse::CollideWithMouse;
use crate::components::physics::{AreaConstraint, DistanceContraint, Friction, Gravity, Locked};
use crate::components::shapes::{Blob, Line, Point};
use crate::util::fixed::{fx_difference, fx_mul_count, fx_multiple, fx_sub};
use crate::util::vector::Vec2;
use crate::world::World;

verus! {

/// A point of a blob: free, at rest, with a friction of its own, pushed away
/// by the probe.
pub open spec fn blob_point(position: Vec2, mass: i64, friction: i64) -> Point {
    Point {
        friction: Some(Friction(friction)),
        collide_with_mouse: Some(CollideWithMouse),
        ..Point::at_rest(position, mass)
    }
}

/// A point of a rope. An anchor is locked and exempt from gravity.
pub open spec fn rope_point(position: Vec2, mass: i64, anchor: bool) -> Point {
    if anchor {
        Point { locked: Some(Locked), gravity: Some(Gravity(0)), ..Point::at_rest(position, mass) }
    } else {
        Point::at_rest(position, mass)
    }
}

/// The line from the point `from` to the point `to` with the rest length `rest`.
pub open spec fn link(from: int, to: int, rest: i64) -> Line {
    Line {
        start: from as usize,
        end: to as usize,
        constraint: DistanceContraint { desired_distance: rest },
    }
}

/// The lines that join each of `count` consecutive points, the first of which
/// has the handle `base`, to the next one.
pub open spec fn chain_lines(base: int, count: int, rest: i64) -> Seq<Line> {
    Seq::new(
        if count >= 1 {
            (count - 1) as nat
        } else {
            0
        },
        |j: int| link(base + j, base + j + 1, rest),
    )
}

/// The rest length of link `j` of a rope whose first link has the rest length
/// `rest` and whose every further link is shorter than the one before it by
/// `taper`.
pub open spec fn tapered(rest: i64, taper: i64, j: nat) -> i64
    decreases j,
{
    if j == 0 {
        rest
    } else {
        fx_difference(tapered(rest, taper, (j - 1) as nat), taper)
    }
}

/// The lines of a rope of `count` points, the first of which has the handle
/// `base`: each point is joined to the next, by links of tapered rest length.
pub open spec fn rope_lines(base: int, count: int, rest: i64, taper: i64) -> Seq<Line> {
    Seq::new(
        if count >= 1 {
            (count - 1) as nat
        } else {
            0
        },
        |j: int| link(base + j, base + j + 1, tapered(rest, taper, j as nat)),
    )
}

/// The lines of a closed loop: those of the chain, and one from the last
/// point back to the first. A single point has no lines.
pub open spec fn loop_lines(base: int, count: int, rest: i64) -> Seq<Line> {
    if count >= 2 {
        chain_lines(base, count, rest).push(link(base + count - 1, base, rest))
    } else {
        chain_lines(base, count, rest)
    }
}

/// The handles of `count` consecutive points, the first of which is `base`.
pub open spec fn handles_from(base: int, count: int) -> Seq<usize> {
    Seq::new(count as nat, |j: int| (base + j) as usize)
}

/// Adds a rope to the world: one point at each of `positions`, each joined to
/// the next by a line. The first line has the rest length `rest_length`, and
/// every further line is shorter than the one before it by `taper`; with
/// `taper` zero all lines have the same rest length. With `lock_first` the
/// first point is an anchor.
pub fn setup_rope(
    world: &mut World,
    positions: &Vec<Vec2>,
    mass: i64,
    rest_length: i64,
    taper: i64,
    lock_first: bool,
)
    ensures
        final(world).points@ == old(world).points@ + Seq::new(
            positions@.len(),
            |i: int| rope_point(positions@[i], mass, lock_first && i == 0),
        ),
        final(world).lines@ == old(world).lines@ + rope_lines(
            old(world).points@.len() as int,
            positions@.len() as int,
            rest_length,
            taper,
        ),
        final(world).blobs == old(world).blobs,
{
    let ghost base = world.points@.len() as int;
    let mut previous: Option<usize> = None;
    let mut rest: i64 = rest_length;
    let mut i: usize = 0;
    while i < positions.len()
        invariant
            i <= positions.len(),
            base == old(world).points@.len(),
            base + i == world.points@.len(),
            world.points@ == old(world).points@ + Seq::new(
                i as nat,
                |j: int| rope_point(positions@[j], mass, lock_first && j == 0),
            ),
            world.lines@ == old(world).lines@ + rope_lines(base, i as int, rest_length, taper),
            world.blobs == old(world).blobs,
            previous == if i == 0 {
                None
            } else {
                Some((base + i - 1) as usize)
            },
            rest == tapered(
                rest_length,
                taper,
                if i == 0 {
                    0
                } else {
                    (i - 1) as nat
                },
            ),
        decreases positions.len() - i,
    {
        let anchor: bool = lock_first && i == 0;
        let fresh: Point = Point::new(positions[i], mass);
        let point: Point = if anchor {
            Point { locked: Some(Locked), gravity: Some(Gravity(0)), ..fresh }
        } else {
            fresh
        };
        let handle: usize = world.points.len();
        world.points.push(point);
        if let Some(before) = previous {
            world.lines.push(
                Line {
                    start: before,
                    end: handle,
                    constraint: DistanceContraint { desired_distance: rest },
                },
            );
            rest = fx_sub(rest, taper);
        }
        previous = Some(handle);
        i += 1;
        proof {
            assert(world.points@ =~= old(world).points@ + Seq::new(
                i as nat,
                |j: int| rope_point(positions@[j], mass, lock_first && j == 0),
            ));
            assert(world.lines@ =~= old(world).lines@ + rope_lines(
                base,
                i as int,
                rest_length,
                taper,
            ));
        }
    }
}

/// Adds a blob to the world: one point at each of `positions`, each joined to
/// the next and the last to the first by a line of rest length
/// `chord_length`, and all of them listed in one blob that is held to
/// `desired_area`. The circumference of the blob is the sum of the rest
/// lengths of its lines.
pub fn setup_blob(
    world: &mut World,
    positions: &Vec<Vec2>,
    mass: i64,
    friction: i64,
    chord_length: i64,
    desired_area: i64,
)
    ensures
        final(world).points@ == old(world).points@ + Seq::new(
            positions@.len(),
            |i: int| blob_point(positions@[i], mass, friction),
        ),
        final(world).lines@ == old(world).lines@ + loop_lines(
            old(world).points@.len() as int,
            positions@.len() as int,
            chord_length,
        ),
        final(world).blobs@.len() == old(world).blobs@.len() + 1,
        final(world).blobs@.drop_last() == old(world).blobs@,
        final(world).blobs@.last().points@ == handles_from(
            old(world).points@.len() as int,
            positions@.len() as int,
        ),
        final(world).blobs@.last().circumference == fx_multiple(
            chord_length,
            (final(world).lines@.len() - old(world).lines@.len()) as usize,
        ),
        final(world).blobs@.last().area_constraint == Some(AreaConstraint { desired_area }),
{
    let ghost base = world.points@.len() as int;
    let lines_before: usize = world.lines.len();
    let mut previous_entity: Option<usize> = None;
    let mut first_entity: Option<usize> = None;
    let mut points: Vec<usize> = Vec::new();
    let mut i: usize = 0;
    while i < positions.len()
        invariant
            i <= positions.len(),
            base == old(world).points@.len(),
            base + i == world.points@.len(),
            lines_before == old(world).lines@.len(),
            world.points@ == old(world).points@ + Seq::new(
                i as nat,
                |j: int| blob_point(positions@[j], mass, friction),
            ),
            world.lines@ == old(world).lines@ + chain_lines(base, i as int, chord_length),
            world.blobs == old(world).blobs,
            points@ == handles_from(base, i as int),
            previous_entity == if i == 0 {
                None
            } else {
                Some((base + i - 1) as usize)
            },
            first_entity == if i == 0 {
                None
            } else {
                Some(base as usize)
            },
        decreases positions.len() - i,
    {
        let fresh: Point = Point::new(positions[i], mass);
        let handle: usize = world.points.len();
        world.points.push(
            Point {
                friction: Some(Friction(friction)),
                collide_with_mouse: Some(CollideWithMouse),
                ..fresh
            },
        );
        if previous_entity.is_none() {
            first_entity = Some(handle);
        }
        points.push(handle);
        if let Some(e) = previous_entity {
            world.lines.push(
                Line {
                    start: e,
                    end: handle,
                    constraint: DistanceContraint { desired_distance: chord_length },
                },
            );
        }
        previous_entity = Some(handle);
        i += 1;
        proof {
            assert(world.points@ =~= old(world).points@ + Seq::new(
                i as nat,
                |j: int| blob_point(positions@[j], mass, friction),
            ));
            assert(world.lines@ =~= old(world).lines@ + chain_lines(base, i as int, chord_length));
            assert(points@ =~= handles_from(base, i as int));
        }
    }
    let ghost count = positions@.len() as int;
    assert(base + count == world.points.len());
    let ghost chain = chain_lines(base, count, chord_length);
    if let (Some(first), Some(last)) = (first_entity, previous_entity) {
        if first != last {
            world.lines.push(
                Line {
                    start: last,
                    end: first,
                    constraint: DistanceContraint { desired_distance: chord_length },
                },
            );
            proof {
                assert(count >= 2);
                assert(world.lines@ =~= old(world).lines@ + chain.push(
                    link(base + count - 1, base, chord_length),
                ));
            }
        } else {
            assert(count == 1);
        }
    }
    let circumference: i64 = fx_mul_count(chord_length, world.lines.len() - lines_before);
    world.blobs.push(
        Blob { points, circumference, area_constraint: Some(AreaConstraint { desired_area }) },
    );
    proof {
        assert(world.blobs@.drop_last() =~= old(world).blobs@);
    }
}

} // verus!
