//! Points and the structures built from them.

use vstd::prelude::*;
use crate::components::mouse::{CollideWithMouse, FollowMouse};
use crate::components::physics::{AreaConstraint, DistanceContraint, Friction, Gravity, Locked};
use crate::util::vector::{v_zero, Vec2};

verus! {

/// A point mass.
///
/// `displacement` and `displacement_weight` collect the corrections that the
/// constraints propose during one tick: their sum and their number.
#[derive(Clone, Copy, Debug, PartialEq, Eq)]
pub struct Point {
    pub position: Vec2,
    /// Where the point was before the last integration step; `None` until the
    /// point has been integrated once.
    pub previous_position: Option<Vec2>,
    pub mass: i64,
    pub displacement: Vec2,
    pub displacement_weight: u32,
    pub locked: Option<Locked>,
    pub gravity: Option<Gravity>,
    pub friction: Option<Friction>,
    pub follow_mouse: Option<FollowMouse>,
    pub collide_with_mouse: Option<CollideWithMouse>,
}

impl Point {
    /// A free point at rest with nothing accumulated and default settings.
    pub open spec fn at_rest(position: Vec2, mass: i64) -> Point {
        Point {
            position,
            previous_position: None,
            mass,
            displacement: v_zero(),
            displacement_weight: 0,
            locked: None,
            gravity: None,
            friction: None,
            follow_mouse: None,
            collide_with_mouse: None,
        }
    }

    pub fn new(position: Vec2, mass: i64) -> (p: Point)
        ensures
            p == Point::at_rest(position, mass),
    {
        Point {
            position,
            previous_position: None,
            mass,
            displacement: Vec2::zero(),
            displacement_weight: 0,
            locked: None,
            gravity: None,
            friction: None,
            follow_mouse: None,
            collide_with_mouse: None,
        }
    }
}

/// A distance constraint between the points with the handles `start` and
/// `end`. A handle is an index into the points of a world.
#[derive(Clone, Copy, Debug, PartialEq, Eq)]
pub struct Line {
    pub start: usize,
    pub end: usize,
    pub constraint: DistanceContraint,
}

/// A closed loop of points, listed by handle in the order of the loop; the
/// last point is joined to the first.
#[derive(Clone, Debug, PartialEq, Eq)]
pub struct Blob {
    pub points: Vec<usize>,
    /// The sum of the rest lengths along the loop.
    pub circumference: i64,
    pub area_constraint: Option<AreaConstraint>,
}

} // verus!
