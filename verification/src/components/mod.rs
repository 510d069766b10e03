//! The data that a simulation is made of.

pub mod mouse;
pub mod physics;
pub mod shapes;
