//! The simulation: contact generation and the world that is stepped.

pub mod collisions;
pub mod world;
