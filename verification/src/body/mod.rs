//! The bodies of a world: those that move and those that never do.

pub mod dynamic_body;
pub mod static_body;

pub use dynamic_body::{BaseDynamicBody, Circle, DynamicBody, Rectangle};
pub use static_body::{Line, StaticBody};

use vstd::prelude::*;

verus! {

/// Any body of a world, moving or not.
#[derive(Clone, Copy, Debug, PartialEq, Eq, Structural)]
pub enum Body {
    Static(StaticBody),
    Dynamic(DynamicBody),
}

} // verus!
