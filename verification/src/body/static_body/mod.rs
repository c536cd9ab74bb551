//! Bodies of infinite mass, which never move.

use vstd::prelude::*;

pub mod line;

pub use line::Line;

verus! {

/// A body that never moves.
#[derive(Clone, Copy, Debug, PartialEq, Eq, Structural)]
pub enum StaticBody {
    Line(Line),
}

} // verus!
