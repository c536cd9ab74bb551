//! Axis-aligned rectangles.

use super::BaseDynamicBody;
use crate::bounding_volume::BoundingVolume;
use crate::fixed::Fixed;
use crate::vec2::Vec2D;
use vstd::prelude::*;

verus! {

/// A rectangle with sides along the axes, centred on the position of its
/// moving part.
#[derive(Clone, Copy, Debug, PartialEq, Eq, Structural)]
pub struct Rectangle {
    pub body: BaseDynamicBody,
    pub half_width: Fixed,
    pub half_height: Fixed,
}

impl Rectangle {
    /// Whether both half extents are positive and the moving part well
    /// formed.
    pub open spec fn wf(self) -> bool {
        &&& self.half_width.raw > 0
        &&& self.half_height.raw > 0
        &&& self.body.wf()
    }

    /// The rectangle itself, as a box.
    pub open spec fn to_bounding_volume_spec(self) -> BoundingVolume {
        let extents = Vec2D { x: self.half_width, y: self.half_height };
        BoundingVolume {
            top_left: self.body.position.sub_spec(extents),
            bottom_right: self.body.position.add_spec(extents),
        }
    }

    /// The smallest and largest x, then the smallest and largest y.
    pub open spec fn get_min_max_spec(self) -> (Fixed, Fixed, Fixed, Fixed) {
        let pos = self.body.position;
        (
            pos.x.sub_spec(self.half_width),
            pos.x.add_spec(self.half_width),
            pos.y.sub_spec(self.half_height),
            pos.y.add_spec(self.half_height),
        )
    }

    /// The rectangle itself, as a box.
    #[inline]
    pub fn to_bounding_volume(&self) -> (r: BoundingVolume)
        ensures
            r == self.to_bounding_volume_spec(),
    {
        let extents: Vec2D = Vec2D { x: self.half_width, y: self.half_height };
        BoundingVolume {
            top_left: self.body.position.sub(&extents),
            bottom_right: self.body.position.add(&extents),
        }
    }

    /// The smallest and largest x, then the smallest and largest y.
    pub fn get_min_max(&self) -> (r: (Fixed, Fixed, Fixed, Fixed))
        ensures
            r == self.get_min_max_spec(),
    {
        let pos: Vec2D = self.body.position;
        (
            pos.x.sub(self.half_width),
            pos.x.add(self.half_width),
            pos.y.sub(self.half_height),
            pos.y.add(self.half_height),
        )
    }

    /// The moving part of the rectangle.
    pub fn as_ref(&self) -> (r: &BaseDynamicBody)
        ensures
            *r == self.body,
    {
        &self.body
    }

    /// The moving part of the rectangle, to be changed in place.
    pub fn as_mut(&mut self) -> (r: &mut BaseDynamicBody)
        ensures
            *r == old(self).body,
            *final(self) == (Rectangle { body: *final(r), ..*old(self) }),
    {
        &mut self.body
    }
}

} // verus!
