//! An artificial ecosystem of simple organisms ("biots") on a wraparound plane.
//!
//! Every quantity is held in fixed point, so that each rule of the simulation is
//! an exact statement over integers: traits count genome symbols, positions and
//! velocities are thousandths of a world unit, life is ten-thousandths of a life
//! point.

pub mod biot;
pub mod biot_collection;
pub mod fixed;
pub mod genome;
pub mod laws;
pub mod rng;
pub mod spatial;
