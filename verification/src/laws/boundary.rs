//! The world boundary.

use vstd::prelude::*;
use crate::components::shapes::Point;
use crate::systems::physics::constrained;

verus! {

/// Applying the world boundary a second time changes nothing.
pub proof fn law_boundary_is_idempotent(points: Seq<Point>)
    ensures
        constrained(constrained(points)) == constrained(points),
{
    assert(constrained(constrained(points)) =~= constrained(points));
}

} // verus!
