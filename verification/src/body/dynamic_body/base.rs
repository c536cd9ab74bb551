//! What every moving body has.

use crate::fixed::{Fixed, SCALE};
use crate::vec2::Vec2D;
use vstd::prelude::*;

verus! {

/// The moving part of a body. An inverse mass of zero stands for an
/// infinite mass.
#[derive(Clone, Copy, Debug, PartialEq, Eq, Structural)]
pub struct BaseDynamicBody {
    pub position: Vec2D,
    pub velocity: Vec2D,
    pub coefficient_of_restitution: Fixed,
    pub inverse_mass: Fixed,
}

impl BaseDynamicBody {
    /// Whether the restitution lies between zero and one and the inverse
    /// mass is not negative.
    pub open spec fn wf(self) -> bool {
        &&& 0 <= self.coefficient_of_restitution.raw <= SCALE
        &&& 0 <= self.inverse_mass.raw
    }

    /// The body after it has moved for `elapsed` at its velocity.
    pub open spec fn integrate_spec(self, elapsed: Fixed) -> BaseDynamicBody {
        BaseDynamicBody {
            position: self.position.add_spec(self.velocity.mul_spec(elapsed)),
            ..self
        }
    }

    /// Moves the body for `elapsed` at its velocity.
    pub fn integrate(&mut self, elapsed: Fixed)
        ensures
            *final(self) == old(self).integrate_spec(elapsed),
    {
        let step: Vec2D = self.velocity.mul(elapsed);
        self.position.add_assign(&step);
    }
}

/// A body that moves for no time stays where it is.
pub proof fn lemma_integrate_zero(body: BaseDynamicBody)
    ensures
        body.integrate_spec(Fixed { raw: 0 }) == body,
{
    assert(body.velocity.x.raw * 0 == 0);
    assert(body.velocity.y.raw * 0 == 0);
}

} // verus!
