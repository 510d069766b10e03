//! Soft-body and rope simulation on point masses.
//!
//! Points are joined by distance constraints and, for closed loops, bound by an
//! area constraint. Each tick advances the points by Verlet integration, lets
//! every constraint propose corrections, averages the proposals per point and
//! finally applies the probe and the world boundary.
//!
//! All quantities are fixed-point numbers: an `i64` counts millionths of a
//! unit, be it a length, an area, a mass or a time, and arithmetic rounds
//! toward zero and saturates at the ends of the `i64` range. No function
//! asks anything of its arguments.
//!
//! - [`components`] holds the data: points, lines, blobs and their settings.
//! - [`systems`] holds the stages of a tick and the construction of scenes.
//! - [`world`] puts the stages together.
//! - [`util`] holds the arithmetic.
//! - [`laws`] holds what is proved of every simulation.

pub mod components;
pub mod laws;
pub mod systems;
pub mod util;
pub mod world;
