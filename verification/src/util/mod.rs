//! Arithmetic and geometry shared by the simulation stages.

pub mod fixed;
pub mod shapes;
pub mod vector;
