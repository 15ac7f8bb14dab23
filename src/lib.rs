//! A small particle sandbox: circles integrated with position Verlet under a
//! constant acceleration, then projected out of a slope and a unit box.
//!
//! All geometry is fixed point: one unit of the simulation square is
//! [`fixed::ONE`] position units, and time is counted in nanoseconds.
pub mod circle;
pub mod constraints;
pub mod drag;
pub mod fixed;
pub mod laws;
pub mod scheduler;
pub mod simulation;
