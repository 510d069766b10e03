use softbody::components::mouse::FollowMouse;
use softbody::components::physics::{
    AreaConstraint, Defaults, DistanceContraint, Friction, Gravity, Locked, DEFAULT_FRICTION,
    DEFAULT_GRAVITY,
};
use softbody::components::shapes::{Blob, Line, Point};
use softbody::systems::physics::{
    accumulate, apply_area_constraint, apply_displacement, apply_distance_constraint,
    constrain_point, constrain_to_world, displace_point, integrate_point, relax_area, relax_line,
    take_snapshot, verlet_integration, RELAXATION_PASSES, WORLD_MAX, WORLD_MIN,
};
use softbody::util::shapes::get_trapezoidal_area;
use softbody::util::vector::Vec2;

const UNIT: i64 = 1_000_000;

fn at(x: i64, y: i64) -> Vec2 {
    Vec2::new(x * UNIT, y * UNIT)
}

fn free(x: i64, y: i64) -> Point {
    Point::new(at(x, y), UNIT)
}

fn locked(x: i64, y: i64) -> Point {
    let mut p = free(x, y);
    p.locked = Some(Locked);
    p
}

fn line(start: usize, end: usize, rest: i64) -> Line {
    Line { start, end, constraint: DistanceContraint { desired_distance: rest * UNIT } }
}

#[test]
fn defaults_are_earth_gravity_and_light_damping() {
    assert_eq!(DEFAULT_GRAVITY, -9_810_000);
    assert_eq!(DEFAULT_FRICTION, 990_000);
    assert_eq!(Defaults::new().gravity, Gravity(DEFAULT_GRAVITY));
    assert_eq!(Defaults::new().friction, Friction(DEFAULT_FRICTION));
    assert_eq!(RELAXATION_PASSES, 5);
    assert_eq!(WORLD_MIN, 0);
    assert_eq!(WORLD_MAX, 500 * UNIT);
}

#[test]
fn new_point_is_at_rest_with_nothing_accumulated() {
    let p = Point::new(at(3, 4), 2 * UNIT);
    assert_eq!(p.position, at(3, 4));
    assert_eq!(p.previous_position, None);
    assert_eq!(p.mass, 2 * UNIT);
    assert_eq!(p.displacement, Vec2::zero());
    assert_eq!(p.displacement_weight, 0);
    assert_eq!(p.locked, None);
    assert_eq!(p.gravity, None);
    assert_eq!(p.friction, None);
    assert_eq!(p.follow_mouse, None);
    assert_eq!(p.collide_with_mouse, None);
}

#[test]
fn first_step_of_a_point_at_rest_is_the_gravity_step() {
    // mass 1, dt 1: the step is gravity itself.
    let p = integrate_point(free(0, 100), Defaults::new(), UNIT);
    assert_eq!(p.position, Vec2::new(0, 100 * UNIT - 9_810_000));
    assert_eq!(p.previous_position, Some(at(0, 100)));
}

#[test]
fn second_step_adds_the_damped_velocity() {
    let first = integrate_point(free(0, 100), Defaults::new(), UNIT);
    let p = integrate_point(first, Defaults::new(), UNIT);
    // velocity -9.81 damped by 0.99 is -9.7119; plus gravity -9.81.
    assert_eq!(p.position, Vec2::new(0, 90_190_000 - 9_711_900 - 9_810_000));
    assert_eq!(p.previous_position, Some(Vec2::new(0, 90_190_000)));
}

#[test]
fn heavier_points_fall_faster() {
    let mut heavy = Point::new(at(0, 100), 150 * UNIT);
    heavy.friction = Some(Friction(950_000));
    // gravity * mass = -1471.5; times dt = 1/64 twice, rounded toward zero each time.
    let p = integrate_point(heavy, Defaults::new(), 15_625);
    assert_eq!(p.position, Vec2::new(0, 100 * UNIT - 359_252));
}

#[test]
fn friction_damps_the_velocity_only() {
    let mut p = free(10, 10);
    p.previous_position = Some(at(8, 10));
    p.gravity = Some(Gravity(0));
    p.friction = Some(Friction(500_000));
    let q = integrate_point(p, Defaults::new(), UNIT);
    assert_eq!(q.position, at(11, 10));
    assert_eq!(q.previous_position, Some(at(10, 10)));
}

#[test]
fn defaults_of_the_simulation_apply_where_a_point_sets_none() {
    let moon = Defaults { gravity: Gravity(-1_620_000), friction: Friction(UNIT) };
    let mut p = free(10, 10);
    p.previous_position = Some(at(10, 12));
    let q = integrate_point(p, moon, UNIT);
    assert_eq!(q.position, Vec2::new(10 * UNIT, 10 * UNIT - 2 * UNIT - 1_620_000));
    p.gravity = Some(Gravity(0));
    p.friction = Some(Friction(500_000));
    let r = integrate_point(p, moon, UNIT);
    assert_eq!(r.position, at(10, 9));
}

#[test]
fn no_time_no_motion() {
    let mut p = free(10, 10);
    p.previous_position = Some(at(8, 10));
    assert_eq!(integrate_point(p, Defaults::new(), 0), p);
    let mut points = vec![p, free(1, 2)];
    let before = points.clone();
    verlet_integration(&mut points, Defaults::new(), 0);
    assert_eq!(points, before);
}

#[test]
fn locked_points_are_not_integrated() {
    let mut p = locked(10, 10);
    p.previous_position = Some(at(8, 10));
    assert_eq!(integrate_point(p, Defaults::new(), UNIT), p);
}

#[test]
fn integration_advances_every_free_point() {
    let mut points = vec![free(0, 100), locked(5, 5), free(7, 50)];
    verlet_integration(&mut points, Defaults::new(), UNIT);
    assert_eq!(points[0].position, Vec2::new(0, 90_190_000));
    assert_eq!(points[1], locked(5, 5));
    assert_eq!(points[2].position, Vec2::new(7 * UNIT, 40_190_000));
    assert_eq!(points[2].previous_position, Some(at(7, 50)));
}

#[test]
fn accumulate_adds_and_counts() {
    let p = accumulate(accumulate(free(0, 0), at(1, 2)), at(3, 4));
    assert_eq!(p.displacement, at(4, 6));
    assert_eq!(p.displacement_weight, 2);
    assert_eq!(p.position, at(0, 0));
}

#[test]
fn accumulate_ignores_proposals_beyond_the_countable() {
    let mut p = free(0, 0);
    p.displacement = at(1, 1);
    p.displacement_weight = u32::MAX;
    assert_eq!(accumulate(p, at(5, 5)), p);
}

#[test]
fn free_ends_swap_sides_at_the_rest_length() {
    let mut points = vec![free(0, 0), free(100, 0)];
    relax_line(&mut points, &line(0, 1, 50));
    // midpoint (50, 0), correction (25, 0): the start is proposed at 75, the end at 25.
    assert_eq!(points[0].displacement, at(75, 0));
    assert_eq!(points[0].displacement_weight, 1);
    assert_eq!(points[1].displacement, at(-75, 0));
    assert_eq!(points[1].displacement_weight, 1);
    assert_eq!(points[0].position, at(0, 0));
    assert_eq!(points[1].position, at(100, 0));
}

#[test]
fn locked_start_gives_the_end_the_whole_correction() {
    let mut points = vec![locked(0, 0), free(100, 0)];
    relax_line(&mut points, &line(0, 1, 50));
    assert_eq!(points[0], locked(0, 0));
    // candidate: start - 2 * correction = (-50, 0)
    assert_eq!(points[1].displacement, at(-150, 0));
    assert_eq!(points[1].displacement_weight, 1);
}

#[test]
fn locked_end_gives_the_start_the_whole_correction() {
    let mut points = vec![free(0, 0), locked(0, 100)];
    relax_line(&mut points, &line(0, 1, 30));
    // candidate: end + 2 * correction = (0, 130)
    assert_eq!(points[0].displacement, at(0, 130));
    assert_eq!(points[0].displacement_weight, 1);
    assert_eq!(points[1], locked(0, 100));
}

#[test]
fn line_between_two_locked_points_is_skipped() {
    let mut points = vec![locked(0, 0), locked(100, 0)];
    let before = points.clone();
    apply_distance_constraint(&vec![line(0, 1, 50)], &mut points);
    assert_eq!(points, before);
}

#[test]
fn line_from_a_point_to_itself_is_skipped() {
    let mut points = vec![free(0, 0), free(100, 0)];
    let before = points.clone();
    apply_distance_constraint(&vec![line(1, 1, 50)], &mut points);
    assert_eq!(points, before);
}

#[test]
fn line_with_a_stale_handle_is_skipped() {
    let mut points = vec![free(0, 0), free(100, 0)];
    let before = points.clone();
    apply_distance_constraint(&vec![line(0, 2, 50), line(7, 1, 50)], &mut points);
    assert_eq!(points, before);
}

#[test]
fn coincident_ends_propose_no_movement() {
    let mut points = vec![free(5, 5), free(5, 5)];
    relax_line(&mut points, &line(0, 1, 50));
    assert_eq!(points[0].displacement, at(0, 0));
    assert_eq!(points[0].displacement_weight, 1);
    assert_eq!(points[1].displacement, at(0, 0));
    assert_eq!(points[1].displacement_weight, 1);
}

#[test]
fn distance_solver_relaxes_each_line_five_times() {
    let mut points = vec![free(0, 0), free(100, 0)];
    apply_distance_constraint(&vec![line(0, 1, 50)], &mut points);
    assert_eq!(points[0].displacement, at(375, 0));
    assert_eq!(points[0].displacement_weight, 5);
    assert_eq!(points[1].displacement, at(-375, 0));
    assert_eq!(points[1].displacement_weight, 5);
    assert_eq!(points[0].position, at(0, 0));
    assert_eq!(points[1].position, at(100, 0));
}

#[test]
fn distance_solver_is_symmetric_in_start_and_end() {
    let mut forward = vec![free(0, 0), free(30, 40)];
    let mut backward = forward.clone();
    apply_distance_constraint(&vec![line(0, 1, 10)], &mut forward);
    apply_distance_constraint(&vec![line(1, 0, 10)], &mut backward);
    apply_displacement(&mut forward);
    apply_displacement(&mut backward);
    // Either way the two points end 10 apart about the midpoint (15, 20),
    // on the line through the old positions.
    assert_eq!(forward[0].position, at(18, 24));
    assert_eq!(forward[1].position, at(12, 16));
    assert_eq!(backward[0].position, at(18, 24));
    assert_eq!(backward[1].position, at(12, 16));
}

#[test]
fn displacement_takes_the_mean_and_clears() {
    let mut p = free(10, 10);
    p.displacement = at(9, -6);
    p.displacement_weight = 3;
    let q = displace_point(p);
    assert_eq!(q.position, at(13, 8));
    assert_eq!(q.displacement, Vec2::zero());
    assert_eq!(q.displacement_weight, 0);
}

#[test]
fn displacement_leaves_points_without_proposals_alone() {
    let mut p = free(10, 10);
    p.displacement = at(9, -6);
    assert_eq!(displace_point(p), p);
}

#[test]
fn displacement_clears_but_does_not_move_locked_points() {
    let mut p = locked(10, 10);
    p.displacement = at(9, -6);
    p.displacement_weight = 3;
    let q = displace_point(p);
    assert_eq!(q, locked(10, 10));
}

#[test]
fn apply_displacement_visits_every_point() {
    let mut a = free(0, 0);
    a.displacement = at(10, 0);
    a.displacement_weight = 5;
    let mut b = free(1, 1);
    b.displacement = at(0, -4);
    b.displacement_weight = 2;
    let mut points = vec![a, free(7, 7), b];
    apply_displacement(&mut points);
    assert_eq!(points, vec![free(2, 0), free(7, 7), free(1, -1)]);
}

#[test]
fn shared_point_ends_at_the_average_of_the_proposals() {
    // The free point 0 hangs on three anchors. Each line alone would put it
    // at rest length beyond its anchor: (150, 0), (0, 160) and (-170, 0).
    let mut points = vec![free(0, 0), locked(100, 0), locked(0, 100), locked(-100, 0)];
    let lines = vec![line(0, 1, 50), line(0, 2, 60), line(0, 3, 70)];
    apply_distance_constraint(&lines, &mut points);
    assert_eq!(points[0].displacement_weight, 15);
    apply_displacement(&mut points);
    assert_eq!(points[0].position, Vec2::new(-6_666_666, 53_333_333));

    // The order of the lines makes no difference.
    let mut again = vec![free(0, 0), locked(100, 0), locked(0, 100), locked(-100, 0)];
    let reordered = vec![line(0, 3, 70), line(0, 1, 50), line(0, 2, 60)];
    apply_distance_constraint(&reordered, &mut again);
    apply_displacement(&mut again);
    assert_eq!(again[0].position, points[0].position);
    assert_eq!(again[1], locked(100, 0));
}

#[test]
fn boundary_clamps_each_coordinate_on_its_own() {
    let mut points = vec![free(-5, 250), free(600, -1), free(20, 30), free(500, 0)];
    constrain_to_world(&mut points);
    assert_eq!(points, vec![free(0, 250), free(500, 0), free(20, 30), free(500, 0)]);
}

#[test]
fn boundary_twice_is_boundary_once() {
    let mut once = vec![free(-5, 250), free(600, -1), locked(-9, 900), free(20, 30)];
    constrain_to_world(&mut once);
    let mut twice = once.clone();
    constrain_to_world(&mut twice);
    assert_eq!(twice, once);
}

#[test]
fn boundary_spares_locked_points_unless_they_follow_the_probe() {
    assert_eq!(constrain_point(locked(-9, 900)), locked(-9, 900));
    let mut follower = locked(-9, 900);
    follower.follow_mouse = Some(FollowMouse);
    let mut expected = locked(0, 500);
    expected.follow_mouse = Some(FollowMouse);
    assert_eq!(constrain_point(follower), expected);
}

#[test]
fn area_of_a_square_either_way_round() {
    let ccw = vec![at(0, 0), at(10, 0), at(10, 10), at(0, 10)];
    let cw = vec![at(0, 10), at(10, 10), at(10, 0), at(0, 0)];
    assert_eq!(get_trapezoidal_area(&ccw), 100 * UNIT);
    assert_eq!(get_trapezoidal_area(&cw), 100 * UNIT);
}

#[test]
fn area_of_a_right_triangle() {
    let triangle = vec![at(1, 1), at(4, 1), at(1, 5)];
    assert_eq!(get_trapezoidal_area(&triangle), 6 * UNIT);
}

#[test]
fn area_of_degenerate_polygons_is_zero() {
    assert_eq!(get_trapezoidal_area(&[]), 0);
    assert_eq!(get_trapezoidal_area(&[at(3, 4)]), 0);
    assert_eq!(get_trapezoidal_area(&[at(3, 4), at(9, 9)]), 0);
}

#[test]
fn snapshot_puts_the_origin_for_stale_handles() {
    let points = vec![free(1, 2), free(3, 4)];
    let positions = take_snapshot(&points, &vec![1, 5, 0]);
    assert_eq!(positions, vec![at(3, 4), at(0, 0), at(1, 2)]);
}

fn square_blob(desired_area: i64) -> (Vec<Point>, Blob) {
    let points = vec![free(100, 100), free(110, 100), free(110, 110), free(100, 110)];
    let blob = Blob {
        points: vec![0, 1, 2, 3],
        circumference: 40 * UNIT,
        area_constraint: Some(AreaConstraint { desired_area: desired_area * UNIT }),
    };
    (points, blob)
}

#[test]
fn area_pass_pushes_each_vertex_along_its_normal() {
    let (mut points, blob) = square_blob(144);
    relax_area(&mut points, &blob);
    // offset (144 - 100) / 40 = 1.1 along the outward diagonals
    assert_eq!(points[0].displacement, Vec2::new(-777_816, -777_816));
    assert_eq!(points[1].displacement, Vec2::new(777_816, -777_816));
    assert_eq!(points[2].displacement, Vec2::new(777_816, 777_816));
    assert_eq!(points[3].displacement, Vec2::new(-777_816, 777_816));
    for p in &points {
        assert_eq!(p.displacement_weight, 1);
    }
    assert_eq!(points[0].position, at(100, 100));
}

#[test]
fn area_pass_pulls_inward_when_the_loop_is_too_large() {
    let (mut points, blob) = square_blob(60);
    relax_area(&mut points, &blob);
    // offset (60 - 100) / 40 = -1
    assert_eq!(points[0].displacement, Vec2::new(707_106, 707_106));
    assert_eq!(points[2].displacement, Vec2::new(-707_106, -707_106));
}

#[test]
fn area_solver_runs_five_passes_from_the_same_positions() {
    let (mut points, blob) = square_blob(144);
    apply_area_constraint(&vec![blob], &mut points);
    assert_eq!(points[0].displacement, Vec2::new(-3_889_080, -3_889_080));
    assert_eq!(points[0].displacement_weight, 5);
    apply_displacement(&mut points);
    assert_eq!(points[0].position, Vec2::new(100 * UNIT - 777_816, 100 * UNIT - 777_816));
    assert_eq!(points[2].position, Vec2::new(110 * UNIT + 777_816, 110 * UNIT + 777_816));
}

#[test]
fn area_solver_skips_loops_of_fewer_than_three_points() {
    let mut points = vec![free(0, 0), free(10, 0)];
    let before = points.clone();
    let blob = Blob {
        points: vec![0, 1],
        circumference: 20 * UNIT,
        area_constraint: Some(AreaConstraint { desired_area: 50 * UNIT }),
    };
    apply_area_constraint(&vec![blob], &mut points);
    assert_eq!(points, before);
}

#[test]
fn area_solver_skips_blobs_without_a_constraint() {
    let (mut points, mut blob) = square_blob(144);
    blob.area_constraint = None;
    let before = points.clone();
    apply_area_constraint(&vec![blob], &mut points);
    assert_eq!(points, before);
}

#[test]
fn area_solver_guards_a_zero_circumference() {
    let (mut points, mut blob) = square_blob(144);
    blob.circumference = 0;
    relax_area(&mut points, &blob);
    for p in &points {
        assert_eq!(p.displacement, Vec2::zero());
        assert_eq!(p.displacement_weight, 1);
    }
}

#[test]
fn area_solver_reads_the_origin_for_a_stale_handle() {
    // The loop (0,0), (10,0), stale, (0,10): the stale vertex counts as the
    // origin, so the area is that of the triangle before it degenerates: 0.
    let mut points = vec![free(0, 0), free(10, 0), free(0, 10)];
    let blob = Blob {
        points: vec![0, 1, 9, 2],
        circumference: 40 * UNIT,
        area_constraint: Some(AreaConstraint { desired_area: 40 * UNIT }),
    };
    relax_area(&mut points, &blob);
    // area 0, offset 1: vertex 1 has neighbours (0,0) and the origin: no push.
    assert_eq!(points[1].displacement, Vec2::zero());
    assert_eq!(points[1].displacement_weight, 1);
    // vertex 0 has neighbours (0,10) and (10,0): secant (10,-10), normal (-10,-10).
    assert_eq!(points[0].displacement, Vec2::new(-707_106, -707_106));
    // vertex 3 (handle 2) has neighbours origin and (0,0): no push.
    assert_eq!(points[2].displacement, Vec2::zero());
    assert_eq!(points[2].displacement_weight, 1);
}

#[test]
fn coincident_neighbours_give_no_push() {
    let mut points = vec![free(0, 0), free(5, 5), free(0, 0)];
    let blob = Blob {
        points: vec![0, 1, 2],
        circumference: 30 * UNIT,
        area_constraint: Some(AreaConstraint { desired_area: 30 * UNIT }),
    };
    relax_area(&mut points, &blob);
    assert_eq!(points[1].displacement, Vec2::zero());
    assert_eq!(points[1].displacement_weight, 1);
}

#[test]
fn loop_at_its_area_is_left_alone() {
    let (mut points, blob) = square_blob(100);
    let before = points.clone();
    apply_area_constraint(&vec![blob], &mut points);
    for p in &points {
        assert_eq!(p.displacement, Vec2::zero());
        assert_eq!(p.displacement_weight, 5);
    }
    apply_displacement(&mut points);
    assert_eq!(points, before);
}

#[test]
fn locked_vertex_takes_proposals_but_does_not_move() {
    let (mut points, blob) = square_blob(144);
    points[2].locked = Some(Locked);
    apply_area_constraint(&vec![blob], &mut points);
    assert_eq!(points[2].displacement_weight, 5);
    apply_displacement(&mut points);
    assert_eq!(points[2].position, at(110, 110));
    assert_eq!(points[2].displacement, Vec2::zero());
    assert_eq!(points[2].displacement_weight, 0);
    assert_eq!(points[0].position, Vec2::new(100 * UNIT - 777_816, 100 * UNIT - 777_816));
}

#[test]
fn area_is_the_same_wound_either_way() {
    let mut ring = vec![
        Vec2::new(12_345_678, 1_000_001),
        Vec2::new(98_765_432, 7_777_777),
        Vec2::new(150_000_001, 88_888_888),
        Vec2::new(77_000_000, 140_000_003),
        Vec2::new(3_141_592, 65_358_979),
    ];
    let one_way = get_trapezoidal_area(&ring);
    ring.reverse();
    assert_eq!(get_trapezoidal_area(&ring), one_way);
    assert!(one_way > 0);
}
