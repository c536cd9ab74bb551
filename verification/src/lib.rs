//! A deterministic two-dimensional rigid-body physics core.
//!
//! A [`simulation::world::World`] holds static bodies (lines that bound half
//! planes), moving bodies (circles and axis-aligned rectangles) and a
//! gravity. One call of `tick` advances it by a time step: gravity acts, the
//! contacts of every moving body with the static ones are resolved, the
//! contacts among the moving bodies are found with a tree of bounding
//! volumes and resolved by repeated impulses and one correction of
//! positions, and every body moves at the velocity it then has.
//!
//! Every quantity is a [`fixed::Fixed`]: a signed decimal fixed-point number
//! with saturating arithmetic, so that a step is a total, reproducible
//! function of the world it starts from. What each function computes is
//! stated over these numbers, and the laws that the parts obey are proved
//! beside them.

pub mod body;
pub mod bounding_volume;
pub mod fixed;
pub mod simulation;
pub mod vec2;
