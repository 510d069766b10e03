//! Integration over several ticks.

use vstd::prelude::*;
use crate::components::physics::Defaults;
use crate::components::shapes::Point;
use crate::laws::anchors::same_settings;
use crate::systems::physics::{acceleration_of, friction_of, integrated, integrated_point};
use crate::util::vector::{v_difference, v_scaled, v_sum, v_zero, Vec2};

verus! {

/// The point `p` after `ticks` integration steps of length `dt` each.
pub open spec fn integrated_times(p: Point, defaults: Defaults, dt: i64, ticks: nat) -> Point
    decreases ticks,
{
    if ticks == 0 {
        p
    } else {
        integrated_point(integrated_times(p, defaults, dt, (ticks - 1) as nat), defaults, dt)
    }
}

/// What gravity adds to the position of `p` in one step of length `dt`.
pub open spec fn gravity_step(p: Point, defaults: Defaults, dt: i64) -> Vec2 {
    v_scaled(v_scaled(acceleration_of(p, defaults), dt), dt)
}

/// A free point under integration alone follows the damped Verlet
/// recurrence: a point at rest first moves by the gravity step, and from
/// then on each position is the one before it, plus the last movement
/// damped by the friction, plus the gravity step.
pub proof fn law_verlet_recurrence(p: Point, defaults: Defaults, dt: i64, ticks: nat)
    requires
        p.locked is None,
        dt != 0,
    ensures
        p.previous_position is None ==> integrated_times(p, defaults, dt, 1).position == v_sum(
            p.position,
            v_sum(v_scaled(v_zero(), friction_of(p, defaults)), gravity_step(p, defaults, dt)),
        ),
        integrated_times(p, defaults, dt, ticks + 2).position == v_sum(
            integrated_times(p, defaults, dt, ticks + 1).position,
            v_sum(
                v_scaled(
                    v_difference(
                        integrated_times(p, defaults, dt, ticks + 1).position,
                        integrated_times(p, defaults, dt, ticks).position,
                    ),
                    friction_of(p, defaults),
                ),
                gravity_step(p, defaults, dt),
            ),
        ),
{
    lemma_integrated_times_keeps_settings(p, defaults, dt, ticks);
    lemma_integrated_times_keeps_settings(p, defaults, dt, ticks + 1);
    reveal_with_fuel(integrated_times, 3);
}

/// Integration changes no mass and no flag.
pub proof fn lemma_integrated_times_keeps_settings(
    p: Point,
    defaults: Defaults,
    dt: i64,
    ticks: nat,
)
    ensures
        same_settings(integrated_times(p, defaults, dt, ticks), p),
    decreases ticks,
{
    if ticks > 0 {
        lemma_integrated_times_keeps_settings(p, defaults, dt, (ticks - 1) as nat);
    }
}

/// When no time has passed, integration changes nothing.
pub proof fn law_no_time_no_motion(points: Seq<Point>, defaults: Defaults)
    ensures
        integrated(points, defaults, 0) == points,
{
    assert(integrated(points, defaults, 0) =~= points);
}

} // verus!
