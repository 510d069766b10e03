//! Markers that tie a point to the probe.

use vstd::prelude::*;

verus! {

/// Marks a point that is placed at the probe while the probe is active.
#[derive(Clone, Copy, Debug, PartialEq, Eq)]
pub struct FollowMouse;

/// Marks a point that the probe pushes away while the probe is active.
#[derive(Clone, Copy, Debug, PartialEq, Eq)]
pub struct CollideWithMouse;

} // verus!
