//! The stages of a simulation tick, and what surrounds them.

pub mod display;
pub mod mouse;
pub mod physics;
pub mod setup;
