use softbody::components::mouse::CollideWithMouse;
use softbody::components::physics::{AreaConstraint, DistanceContraint, Friction, Gravity, Locked};
use softbody::components::shapes::{Blob, Line, Point};
use softbody::systems::display::blob_outline;
use softbody::systems::setup::{setup_blob, setup_rope};
use softbody::util::vector::Vec2;
use softbody::world::World;

const UNIT: i64 = 1_000_000;

fn at(x: i64, y: i64) -> Vec2 {
    Vec2::new(x * UNIT, y * UNIT)
}

fn link(start: usize, end: usize, rest: i64) -> Line {
    Line { start, end, constraint: DistanceContraint { desired_distance: rest } }
}

#[test]
fn new_world_is_empty() {
    let world = World::new();
    assert!(world.points.is_empty());
    assert!(world.lines.is_empty());
    assert!(world.blobs.is_empty());
}

#[test]
fn rope_is_a_chain() {
    let mut world = World::new();
    setup_rope(&mut world, &vec![at(0, 0), at(10, 0), at(20, 0)], 2 * UNIT, 10 * UNIT, 0, false);
    assert_eq!(
        world.points,
        vec![
            Point::new(at(0, 0), 2 * UNIT),
            Point::new(at(10, 0), 2 * UNIT),
            Point::new(at(20, 0), 2 * UNIT),
        ]
    );
    assert_eq!(world.lines, vec![link(0, 1, 10 * UNIT), link(1, 2, 10 * UNIT)]);
    assert!(world.blobs.is_empty());
}

#[test]
fn rope_links_can_taper() {
    let mut world = World::new();
    let places = vec![at(0, 0), at(10, 0), at(19, 0), at(27, 0), at(34, 0)];
    setup_rope(&mut world, &places, UNIT, 10 * UNIT, UNIT, false);
    assert_eq!(
        world.lines,
        vec![
            link(0, 1, 10 * UNIT),
            link(1, 2, 9 * UNIT),
            link(2, 3, 8 * UNIT),
            link(3, 4, 7 * UNIT),
        ]
    );
}

#[test]
fn rope_anchor_is_locked_and_weightless() {
    let mut world = World::new();
    setup_rope(&mut world, &vec![at(0, 0), at(10, 0)], UNIT, 10 * UNIT, 0, true);
    let mut anchor = Point::new(at(0, 0), UNIT);
    anchor.locked = Some(Locked);
    anchor.gravity = Some(Gravity(0));
    assert_eq!(world.points, vec![anchor, Point::new(at(10, 0), UNIT)]);
    assert_eq!(world.lines, vec![link(0, 1, 10 * UNIT)]);
}

#[test]
fn rope_of_one_point_has_no_line_and_empty_rope_adds_nothing() {
    let mut world = World::new();
    setup_rope(&mut world, &vec![at(5, 5)], UNIT, 10 * UNIT, 0, false);
    assert_eq!(world.points.len(), 1);
    assert!(world.lines.is_empty());
    setup_rope(&mut world, &vec![], UNIT, 10 * UNIT, 0, true);
    assert_eq!(world.points.len(), 1);
    assert!(world.lines.is_empty());
}

#[test]
fn second_rope_gets_the_next_handles() {
    let mut world = World::new();
    setup_rope(&mut world, &vec![at(0, 0), at(10, 0)], UNIT, 10 * UNIT, 0, false);
    setup_rope(&mut world, &vec![at(0, 5), at(10, 5), at(20, 5)], UNIT, 7 * UNIT, 0, true);
    assert_eq!(world.points.len(), 5);
    assert_eq!(
        world.lines,
        vec![link(0, 1, 10 * UNIT), link(2, 3, 7 * UNIT), link(3, 4, 7 * UNIT)]
    );
    assert_eq!(world.points[2].locked, Some(Locked));
    assert_eq!(world.points[3].locked, None);
}

fn blob_point(x: i64, y: i64) -> Point {
    let mut p = Point::new(at(x, y), 150 * UNIT);
    p.friction = Some(Friction(950_000));
    p.collide_with_mouse = Some(CollideWithMouse);
    p
}

#[test]
fn blob_is_a_closed_loop_with_an_area() {
    let mut world = World::new();
    let corners = vec![at(0, 0), at(10, 0), at(10, 10), at(0, 10)];
    setup_blob(&mut world, &corners, 150 * UNIT, 950_000, 10 * UNIT, 120 * UNIT);
    assert_eq!(
        world.points,
        vec![blob_point(0, 0), blob_point(10, 0), blob_point(10, 10), blob_point(0, 10)]
    );
    assert_eq!(
        world.lines,
        vec![
            link(0, 1, 10 * UNIT),
            link(1, 2, 10 * UNIT),
            link(2, 3, 10 * UNIT),
            link(3, 0, 10 * UNIT),
        ]
    );
    assert_eq!(
        world.blobs,
        vec![Blob {
            points: vec![0, 1, 2, 3],
            circumference: 40 * UNIT,
            area_constraint: Some(AreaConstraint { desired_area: 120 * UNIT }),
        }]
    );
}

#[test]
fn blob_after_a_rope_gets_the_next_handles() {
    let mut world = World::new();
    setup_rope(&mut world, &vec![at(0, 0), at(10, 0)], UNIT, 10 * UNIT, 0, false);
    setup_blob(&mut world, &vec![at(0, 0), at(4, 0), at(0, 3)], UNIT, UNIT, 4 * UNIT, 6 * UNIT);
    assert_eq!(world.points.len(), 5);
    assert_eq!(
        world.lines,
        vec![
            link(0, 1, 10 * UNIT),
            link(2, 3, 4 * UNIT),
            link(3, 4, 4 * UNIT),
            link(4, 2, 4 * UNIT),
        ]
    );
    assert_eq!(world.blobs[0].points, vec![2, 3, 4]);
    assert_eq!(world.blobs[0].circumference, 12 * UNIT);
}

#[test]
fn blob_of_two_points_is_joined_both_ways() {
    let mut world = World::new();
    setup_blob(&mut world, &vec![at(0, 0), at(4, 0)], UNIT, UNIT, 4 * UNIT, 6 * UNIT);
    assert_eq!(world.lines, vec![link(0, 1, 4 * UNIT), link(1, 0, 4 * UNIT)]);
    assert_eq!(world.blobs[0].points, vec![0, 1]);
    assert_eq!(world.blobs[0].circumference, 8 * UNIT);
}

#[test]
fn blob_of_one_point_or_none_has_no_lines() {
    let mut world = World::new();
    setup_blob(&mut world, &vec![at(7, 7)], UNIT, UNIT, 4 * UNIT, 6 * UNIT);
    assert!(world.lines.is_empty());
    assert_eq!(world.blobs[0].points, vec![0]);
    assert_eq!(world.blobs[0].circumference, 0);
    setup_blob(&mut world, &vec![], UNIT, UNIT, 4 * UNIT, 6 * UNIT);
    assert!(world.lines.is_empty());
    assert_eq!(world.points.len(), 1);
    assert_eq!(world.blobs.len(), 2);
    assert!(world.blobs[1].points.is_empty());
}

#[test]
fn outline_lists_the_loop_in_order() {
    let mut world = World::new();
    let corners = vec![at(0, 0), at(10, 0), at(10, 10), at(0, 10)];
    setup_blob(&mut world, &corners, UNIT, UNIT, 10 * UNIT, 100 * UNIT);
    assert_eq!(blob_outline(&world.blobs[0], &world.points), corners);
}

#[test]
fn outline_leaves_out_stale_handles() {
    let points = vec![Point::new(at(1, 1), UNIT), Point::new(at(2, 2), UNIT)];
    let blob = Blob { points: vec![1, 4, 0, 9], circumference: 0, area_constraint: None };
    assert_eq!(blob_outline(&blob, &points), vec![at(2, 2), at(1, 1)]);
    let empty = Blob { points: vec![], circumference: 0, area_constraint: None };
    assert_eq!(blob_outline(&empty, &points), vec![]);
}
