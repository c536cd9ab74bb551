//! Axis-aligned bounding boxes.

use crate::vec2::Vec2D;
use vstd::prelude::*;

verus! {

/// An axis-aligned box given by its corner with the smallest coordinates and
/// its corner with the largest.
#[derive(Clone, Copy, Debug, PartialEq, Eq, Structural)]
pub struct BoundingVolume {
    pub top_left: Vec2D,
    pub bottom_right: Vec2D,
}

impl BoundingVolume {
    /// Whether the corners are in order on both axes.
    pub open spec fn wf(self) -> bool {
        &&& self.top_left.x.raw <= self.bottom_right.x.raw
        &&& self.top_left.y.raw <= self.bottom_right.y.raw
    }

    /// Whether the boxes overlap on both axes. Boxes that share no more than
    /// an edge or a corner do not overlap.
    pub open spec fn is_intersecting_spec(self, other: BoundingVolume) -> bool {
        &&& !(self.bottom_right.x.raw <= other.top_left.x.raw || self.top_left.x.raw
            >= other.bottom_right.x.raw)
        &&& !(self.bottom_right.y.raw <= other.top_left.y.raw || self.top_left.y.raw
            >= other.bottom_right.y.raw)
    }

    /// Whether `inner` lies entirely within this box.
    pub open spec fn contains(self, inner: BoundingVolume) -> bool {
        &&& self.top_left.x.raw <= inner.top_left.x.raw
        &&& self.top_left.y.raw <= inner.top_left.y.raw
        &&& inner.bottom_right.x.raw <= self.bottom_right.x.raw
        &&& inner.bottom_right.y.raw <= self.bottom_right.y.raw
    }

    /// The smallest box that contains both.
    pub open spec fn union_spec(self, other: BoundingVolume) -> BoundingVolume {
        BoundingVolume {
            top_left: self.top_left.min_spec(other.top_left),
            bottom_right: self.bottom_right.max_spec(other.bottom_right),
        }
    }

    /// Whether the boxes overlap on both axes.
    #[inline]
    pub fn is_intersecting(&self, other: &BoundingVolume) -> (r: bool)
        ensures
            r == self.is_intersecting_spec(*other),
    {
        if self.bottom_right.x.raw <= other.top_left.x.raw || self.top_left.x.raw
            >= other.bottom_right.x.raw {
            return false;
        }
        if self.bottom_right.y.raw <= other.top_left.y.raw || self.top_left.y.raw
            >= other.bottom_right.y.raw {
            return false;
        }
        true
    }

    /// The smallest box that contains both.
    pub fn union(&self, other: &BoundingVolume) -> (r: BoundingVolume)
        ensures
            r == self.union_spec(*other),
    {
        BoundingVolume {
            top_left: self.top_left.min(&other.top_left),
            bottom_right: self.bottom_right.max(&other.bottom_right),
        }
    }
}

/// Overlap does not depend on the order of the two boxes.
pub proof fn lemma_is_intersecting_symmetric(a: BoundingVolume, b: BoundingVolume)
    ensures
        a.is_intersecting_spec(b) == b.is_intersecting_spec(a),
{
}

/// Two boxes of which one ends, on either axis, where the other begins do not
/// overlap.
pub proof fn lemma_touching_boxes_do_not_intersect(a: BoundingVolume, b: BoundingVolume)
    requires
        a.bottom_right.x.raw == b.top_left.x.raw || a.top_left.x.raw == b.bottom_right.x.raw
            || a.bottom_right.y.raw == b.top_left.y.raw || a.top_left.y.raw
            == b.bottom_right.y.raw,
    ensures
        !a.is_intersecting_spec(b),
        !b.is_intersecting_spec(a),
{
}

/// The union does not depend on the order of the two boxes.
pub proof fn lemma_union_commutative(a: BoundingVolume, b: BoundingVolume)
    ensures
        a.union_spec(b) == b.union_spec(a),
{
}

/// The union of three boxes does not depend on how they are grouped.
pub proof fn lemma_union_associative(a: BoundingVolume, b: BoundingVolume, c: BoundingVolume)
    ensures
        a.union_spec(b).union_spec(c) == a.union_spec(b.union_spec(c)),
{
}

/// The union contains both boxes entirely.
pub proof fn lemma_union_contains_both(a: BoundingVolume, b: BoundingVolume)
    ensures
        a.union_spec(b).contains(a),
        a.union_spec(b).contains(b),
{
}

/// The union of two boxes with ordered corners has ordered corners.
pub proof fn lemma_union_wf(a: BoundingVolume, b: BoundingVolume)
    requires
        a.wf(),
        b.wf(),
    ensures
        a.union_spec(b).wf(),
{
}

/// A box that overlaps part of another box overlaps the whole of it.
pub proof fn lemma_intersecting_inner_intersects_outer(
    outer: BoundingVolume,
    inner: BoundingVolume,
    query: BoundingVolume,
)
    requires
        outer.contains(inner),
        inner.is_intersecting_spec(query),
    ensures
        outer.is_intersecting_spec(query),
{
}

} // verus!
