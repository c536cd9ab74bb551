//! Circles.

use super::BaseDynamicBody;
use crate::bounding_volume::BoundingVolume;
use crate::fixed::Fixed;
use crate::vec2::Vec2D;
use vstd::prelude::*;

verus! {

/// A circle around the position of its moving part.
#[derive(Clone, Copy, Debug, PartialEq, Eq, Structural)]
pub struct Circle {
    pub body: BaseDynamicBody,
    pub radius: Fixed,
}

impl Circle {
    /// Whether the radius is positive and the moving part well formed.
    pub open spec fn wf(self) -> bool {
        &&& self.radius.raw > 0
        &&& self.body.wf()
    }

    /// The square around the circle.
    pub open spec fn to_bounding_volume_spec(self) -> BoundingVolume {
        let extents = Vec2D { x: self.radius, y: self.radius };
        BoundingVolume {
            top_left: self.body.position.sub_spec(extents),
            bottom_right: self.body.position.add_spec(extents),
        }
    }

    /// The square around the circle.
    #[inline]
    pub fn to_bounding_volume(&self) -> (r: BoundingVolume)
        ensures
            r == self.to_bounding_volume_spec(),
    {
        let extents: Vec2D = Vec2D { x: self.radius, y: self.radius };
        BoundingVolume {
            top_left: self.body.position.sub(&extents),
            bottom_right: self.body.position.add(&extents),
        }
    }

    /// The moving part of the circle.
    pub fn as_ref(&self) -> (r: &BaseDynamicBody)
        ensures
            *r == self.body,
    {
        &self.body
    }

    /// The moving part of the circle, to be changed in place.
    pub fn as_mut(&mut self) -> (r: &mut BaseDynamicBody)
        ensures
            *r == old(self).body,
            *final(self) == (Circle { body: *final(r), ..*old(self) }),
    {
        &mut self.body
    }
}

} // verus!
