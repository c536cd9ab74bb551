//! Bodies that move: circles and axis-aligned rectangles.

use crate::bounding_volume::BoundingVolume;
use vstd::prelude::*;

pub mod base;
pub mod circle;
pub mod rectangle;

pub use base::BaseDynamicBody;
pub use circle::Circle;
pub use rectangle::Rectangle;

verus! {

/// A body that moves.
#[derive(Clone, Copy, Debug, PartialEq, Eq, Structural)]
pub enum DynamicBody {
    Circle(Circle),
    Rectangle(Rectangle),
}

impl DynamicBody {
    /// Whether the shape and its moving part are well formed.
    pub open spec fn wf(self) -> bool {
        match self {
            DynamicBody::Circle(circle) => circle.wf(),
            DynamicBody::Rectangle(rectangle) => rectangle.wf(),
        }
    }

    /// The moving part of the body.
    pub open spec fn body(self) -> BaseDynamicBody {
        match self {
            DynamicBody::Circle(circle) => circle.body,
            DynamicBody::Rectangle(rectangle) => rectangle.body,
        }
    }

    /// The same shape with another moving part.
    pub open spec fn with_body(self, body: BaseDynamicBody) -> DynamicBody {
        match self {
            DynamicBody::Circle(circle) => DynamicBody::Circle(Circle { body, ..circle }),
            DynamicBody::Rectangle(rectangle) => DynamicBody::Rectangle(
                Rectangle { body, ..rectangle },
            ),
        }
    }

    /// The smallest box that contains the shape.
    pub open spec fn to_bounding_volume_spec(self) -> BoundingVolume {
        match self {
            DynamicBody::Circle(circle) => circle.to_bounding_volume_spec(),
            DynamicBody::Rectangle(rectangle) => rectangle.to_bounding_volume_spec(),
        }
    }

    /// The smallest box that contains the shape.
    #[inline]
    pub fn to_bounding_volume(&self) -> (r: BoundingVolume)
        ensures
            r == self.to_bounding_volume_spec(),
    {
        match self {
            DynamicBody::Circle(circle) => circle.to_bounding_volume(),
            DynamicBody::Rectangle(rectangle) => rectangle.to_bounding_volume(),
        }
    }

    /// The moving part of the body.
    pub fn as_ref(&self) -> (r: &BaseDynamicBody)
        ensures
            *r == self.body(),
    {
        match self {
            DynamicBody::Circle(circle) => circle.as_ref(),
            DynamicBody::Rectangle(rectangle) => rectangle.as_ref(),
        }
    }

    /// The moving part of the body, to be changed in place.
    pub fn as_mut(&mut self) -> (r: &mut BaseDynamicBody)
        ensures
            *r == old(self).body(),
            *final(self) == old(self).with_body(*final(r)),
    {
        match self {
            DynamicBody::Circle(circle) => circle.as_mut(),
            DynamicBody::Rectangle(rectangle) => rectangle.as_mut(),
        }
    }
}

/// A well-formed body has a box with ordered corners.
pub proof fn lemma_bounding_volume_wf(body: DynamicBody)
    requires
        body.wf(),
    ensures
        body.to_bounding_volume_spec().wf(),
{
}

} // verus!
