//! The half plane behind an infinite line.

use crate::fixed::Fixed;
use crate::vec2::Vec2D;
use vstd::prelude::*;

verus! {

/// The half plane of the points `p` with `normal · p + origin_distance <= 0`.
/// The normal is meant to be of unit length.
#[derive(Clone, Copy, Debug, PartialEq, Eq, Structural)]
pub struct Line {
    pub normal: Vec2D,
    pub origin_distance: Fixed,
}

impl Line {
    /// The line with the given normal and distance.
    pub fn new(normal: Vec2D, origin_distance: Fixed) -> (r: Line)
        ensures
            r == (Line { normal, origin_distance }),
    {
        Line { normal, origin_distance }
    }

    /// The signed distance of `point` from the line: negative behind it.
    pub open spec fn signed_distance_spec(self, point: Vec2D) -> Fixed {
        self.normal.dot_product_spec(point).add_spec(self.origin_distance)
    }

    /// The signed distance of `point` from the line: negative behind it.
    pub fn signed_distance(&self, point: &Vec2D) -> (r: Fixed)
        ensures
            r == self.signed_distance_spec(*point),
    {
        self.normal.dot_product(point).add(self.origin_distance)
    }
}

} // verus!
