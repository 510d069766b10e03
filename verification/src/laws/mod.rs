//! Properties that hold of every simulation.

pub mod accumulators;
pub mod anchors;
pub mod area;
pub mod averaging;
pub mod boundary;
pub mod distance;
pub mod integration;
pub mod probe;
pub mod reach;
pub mod symmetry;
pub mod winding;
