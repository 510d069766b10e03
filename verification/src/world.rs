//! A simulation and its tick.

use vstd::prelude::*;
use crate::components::physics::Defaults;
use crate::components::shapes::{Blob, Line, Point};
use crate::systems::mouse::{collide_with_mouse, collided, follow_mouse, followed};
use crate::systems::physics::{
    apply_area_constraint, apply_displacement, apply_distance_constraint, area_solved,
    constrain_to_world, constrained, displaced, distance_solved, integrated, verlet_integration,
};
use crate::util::vector::Vec2;

verus! {

/// Everything that is simulated: the points, addressed by their index, and
/// the lines and blobs that constrain them.
pub struct World {
    pub points: Vec<Point>,
    pub lines: Vec<Line>,
    pub blobs: Vec<Blob>,
    /// Gravity and friction of the points that have no setting of their own.
    pub defaults: Defaults,
}

/// The points after one tick: integration, then the proposals of the lines
/// and of the blobs, then the displacement that averages them, then the
/// probe, and last the world boundary.
pub open spec fn ticked(
    points: Seq<Point>,
    lines: Seq<Line>,
    blobs: Seq<Blob>,
    defaults: Defaults,
    dt: i64,
    probe: Option<Vec2>,
) -> Seq<Point> {
    constrained(
        collided(
            followed(
                displaced(
                    area_solved(distance_solved(integrated(points, defaults, dt), lines), blobs),
                ),
                probe,
            ),
            probe,
        ),
    )
}

/// What the host hands to one tick: the time that has passed, and where the
/// probe is while it is active.
#[derive(Clone, Copy, Debug, PartialEq, Eq)]
pub struct TickInput {
    pub dt: i64,
    pub probe: Option<Vec2>,
}

/// The points after one tick for each of `inputs`, in order.
pub open spec fn run(
    points: Seq<Point>,
    lines: Seq<Line>,
    blobs: Seq<Blob>,
    defaults: Defaults,
    inputs: Seq<TickInput>,
) -> Seq<Point>
    decreases inputs.len(),
{
    if inputs.len() == 0 {
        points
    } else {
        ticked(
            run(points, lines, blobs, defaults, inputs.drop_last()),
            lines,
            blobs,
            defaults,
            inputs.last().dt,
            inputs.last().probe,
        )
    }
}

impl World {
    /// A world with nothing in it and the usual defaults.
    pub fn new() -> (world: World)
        ensures
            world.points@.len() == 0,
            world.lines@.len() == 0,
            world.blobs@.len() == 0,
            world.defaults == Defaults::usual(),
    {
        World {
            points: Vec::new(),
            lines: Vec::new(),
            blobs: Vec::new(),
            defaults: Defaults::new(),
        }
    }

    /// Advances the simulation by one tick of length `dt`. `probe` is where
    /// the probe is while it is active, and `None` otherwise.
    pub fn tick(&mut self, dt: i64, probe: Option<Vec2>)
        ensures
            final(self).points@ == ticked(
                old(self).points@,
                old(self).lines@,
                old(self).blobs@,
                old(self).defaults,
                dt,
                probe,
            ),
            final(self).lines == old(self).lines,
            final(self).blobs == old(self).blobs,
            final(self).defaults == old(self).defaults,
    {
        verlet_integration(&mut self.points, self.defaults, dt);
        apply_distance_constraint(&self.lines, &mut self.points);
        apply_area_constraint(&self.blobs, &mut self.points);
        apply_displacement(&mut self.points);
        follow_mouse(&mut self.points, probe);
        collide_with_mouse(&mut self.points, probe);
        constrain_to_world(&mut self.points);
    }

    /// Advances the simulation by one tick for each of `inputs`, in order.
    pub fn run(&mut self, inputs: &Vec<TickInput>)
        ensures
            final(self).points@ == run(
                old(self).points@,
                old(self).lines@,
                old(self).blobs@,
                old(self).defaults,
                inputs@,
            ),
            final(self).lines == old(self).lines,
            final(self).blobs == old(self).blobs,
            final(self).defaults == old(self).defaults,
    {
        let mut k: usize = 0;
        while k < inputs.len()
            invariant
                k <= inputs.len(),
                self.points@ == run(
                    old(self).points@,
                    old(self).lines@,
                    old(self).blobs@,
                    old(self).defaults,
                    inputs@.take(k as int),
                ),
                self.lines == old(self).lines,
                self.blobs == old(self).blobs,
                self.defaults == old(self).defaults,
            decreases inputs.len() - k,
        {
            let input: TickInput = inputs[k];
            proof {
                assert(inputs@.take(k + 1).drop_last() =~= inputs@.take(k as int));
            }
            self.tick(input.dt, input.probe);
            k += 1;
        }
        assert(inputs@.take(inputs.len() as int) =~= inputs@);
    }
}

} // verus!
