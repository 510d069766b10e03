//! Constraints and per-point physical settings.

use vstd::prelude::*;

verus! {

/// Gravity that acts on a point where neither the point nor the simulation
/// sets another: 9.81 downward.
pub const DEFAULT_GRAVITY: i64 = -9_810_000;

/// Friction of a point where neither the point nor the simulation sets
/// another: 0.99.
pub const DEFAULT_FRICTION: i64 = 990_000;

/// Pulls the two ends of a line toward a separation of `desired_distance`.
#[derive(Clone, Copy, Debug, PartialEq, Eq)]
pub struct DistanceContraint {
    pub desired_distance: i64,
}

/// Pulls a closed loop of points toward enclosing `desired_area`.
#[derive(Clone, Copy, Debug, PartialEq, Eq)]
pub struct AreaConstraint {
    pub desired_area: i64,
}

/// Vertical acceleration per unit of mass: of one point, or of every point
/// without a setting of its own.
#[derive(Clone, Copy, Debug, PartialEq, Eq)]
pub struct Gravity(pub i64);

/// Velocity damping: of one point, or of every point without a setting of its
/// own.
#[derive(Clone, Copy, Debug, PartialEq, Eq)]
pub struct Friction(pub i64);

/// What holds of every point of a simulation that has no setting of its own.
#[derive(Clone, Copy, Debug, PartialEq, Eq)]
pub struct Defaults {
    pub gravity: Gravity,
    pub friction: Friction,
}

impl Defaults {
    /// Gravity of [`DEFAULT_GRAVITY`] and friction of [`DEFAULT_FRICTION`].
    pub open spec fn usual() -> Defaults {
        Defaults { gravity: Gravity(DEFAULT_GRAVITY), friction: Friction(DEFAULT_FRICTION) }
    }

    /// The defaults of a simulation that sets none of its own.
    pub fn new() -> (defaults: Defaults)
        ensures
            defaults == Defaults::usual(),
    {
        Defaults { gravity: Gravity(DEFAULT_GRAVITY), friction: Friction(DEFAULT_FRICTION) }
    }
}

/// Marks a point that no simulation stage moves.
#[derive(Clone, Copy, Debug, PartialEq, Eq)]
pub struct Locked;

} // verus!
