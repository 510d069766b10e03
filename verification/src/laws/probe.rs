//! How far the probe pushes.

use vstd::prelude::*;
use crate::laws::distance::distance_squared;
use crate::laws::reach::{
    excess, lemma_component_within_length, lemma_reach_parts, lemma_square_of_magnitude,
    lemma_stretch_is_not_too_long, lemma_stretch_is_not_too_short, shortfall, square, stretch,
};
use crate::systems::mouse::{pushed_position, PROBE_RADIUS};
use crate::util::fixed::{lemma_int_sqrt_exists, representable, SCALE};
use crate::util::vector::{v_difference, v_length, v_length_squared, v_normalized, v_scaled, Vec2};

verus! {

/// Whether a point at `position` is pushed away from a probe at `at` without
/// a value leaving the scalar range: neither their separation nor the place
/// to which the point is pushed.
pub open spec fn pushed_in_range(position: Vec2, at: Vec2) -> bool {
    let push = v_scaled(v_normalized(v_difference(position, at)), PROBE_RADIUS);
    &&& representable(position.x - at.x)
    &&& representable(position.y - at.y)
    &&& representable(at.x + push.x)
    &&& representable(at.y + push.y)
}

/// A point that the probe pushes away ends at the radius of the probe, up to
/// rounding: not farther from the probe than the radius with the excess, and
/// not nearer than the radius less the shortfall. The point must not lie on
/// the probe, from where there is no direction to go.
pub proof fn law_probe_pushes_to_its_radius(position: Vec2, at: Vec2)
    requires
        v_length(v_difference(position, at)) >= 1,
        pushed_in_range(position, at),
    ensures
        distance_squared(pushed_position(position, at), at) <= square(
            PROBE_RADIUS + excess(
                PROBE_RADIUS as int,
                v_length(v_difference(position, at)) as int,
            ),
        ),
        square(PROBE_RADIUS - shortfall(PROBE_RADIUS as int)) <= distance_squared(
            pushed_position(position, at),
            at,
        ),
{
    let v = v_difference(position, at);
    let len = v_length(v) as int;
    let radius = PROBE_RADIUS as int;
    assert(SCALE == 1_000_000);
    assert(radius == 50_000_000);
    lemma_square_of_magnitude(v.x as int);
    lemma_square_of_magnitude(v.y as int);
    lemma_int_sqrt_exists(v_length_squared(v));
    assert(v_length_squared(v) == square(v.x as int) + square(v.y as int));
    lemma_component_within_length(v.x as int, v.y as int, len);
    lemma_reach_parts(v.x as int, len, radius);
    lemma_reach_parts(v.y as int, len, radius);
    let push = v_scaled(v_normalized(v), PROBE_RADIUS);
    assert(push.x == stretch(v.x as int, len, radius));
    assert(push.y == stretch(v.y as int, len, radius));
    lemma_stretch_is_not_too_long(v.x as int, v.y as int, len, radius);
    lemma_stretch_is_not_too_short(v.x as int, v.y as int, len, radius);
    assert(shortfall(radius) == 166);
}

} // verus!
