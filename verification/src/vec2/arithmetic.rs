//! Componentwise arithmetic on vectors.

use super::Vec2D;
use crate::fixed::Fixed;
use vstd::prelude::*;

verus! {

impl Vec2D {
    /// The componentwise sum.
    pub open spec fn add_spec(self, rhs: Vec2D) -> Vec2D {
        Vec2D { x: self.x.add_spec(rhs.x), y: self.y.add_spec(rhs.y) }
    }

    /// The componentwise difference.
    pub open spec fn sub_spec(self, rhs: Vec2D) -> Vec2D {
        Vec2D { x: self.x.sub_spec(rhs.x), y: self.y.sub_spec(rhs.y) }
    }

    /// Each component multiplied by `rhs`.
    pub open spec fn mul_spec(self, rhs: Fixed) -> Vec2D {
        Vec2D { x: self.x.mul_spec(rhs), y: self.y.mul_spec(rhs) }
    }

    /// Each component divided by `rhs`.
    pub open spec fn div_spec(self, rhs: Fixed) -> Vec2D {
        Vec2D { x: self.x.div_spec(rhs), y: self.y.div_spec(rhs) }
    }

    /// The vector that points the other way.
    pub open spec fn neg_spec(self) -> Vec2D {
        Vec2D { x: self.x.neg_spec(), y: self.y.neg_spec() }
    }

    /// The componentwise sum.
    pub fn add(&self, rhs: &Vec2D) -> (r: Vec2D)
        ensures
            r == self.add_spec(*rhs),
    {
        Vec2D { x: self.x.add(rhs.x), y: self.y.add(rhs.y) }
    }

    /// Adds `rhs` to the vector in place.
    pub fn add_assign(&mut self, rhs: &Vec2D)
        ensures
            *final(self) == old(self).add_spec(*rhs),
    {
        self.x = self.x.add(rhs.x);
        self.y = self.y.add(rhs.y);
    }

    /// The componentwise difference.
    pub fn sub(&self, rhs: &Vec2D) -> (r: Vec2D)
        ensures
            r == self.sub_spec(*rhs),
    {
        Vec2D { x: self.x.sub(rhs.x), y: self.y.sub(rhs.y) }
    }

    /// Subtracts `rhs` from the vector in place.
    pub fn sub_assign(&mut self, rhs: &Vec2D)
        ensures
            *final(self) == old(self).sub_spec(*rhs),
    {
        self.x = self.x.sub(rhs.x);
        self.y = self.y.sub(rhs.y);
    }

    /// Each component multiplied by `rhs`.
    pub fn mul(&self, rhs: Fixed) -> (r: Vec2D)
        ensures
            r == self.mul_spec(rhs),
    {
        Vec2D { x: self.x.mul(rhs), y: self.y.mul(rhs) }
    }

    /// Multiplies the vector by `rhs` in place.
    pub fn mul_assign(&mut self, rhs: Fixed)
        ensures
            *final(self) == old(self).mul_spec(rhs),
    {
        self.x = self.x.mul(rhs);
        self.y = self.y.mul(rhs);
    }

    /// Each component divided by `rhs`.
    pub fn div(&self, rhs: Fixed) -> (r: Vec2D)
        ensures
            r == self.div_spec(rhs),
    {
        Vec2D { x: self.x.div(rhs), y: self.y.div(rhs) }
    }

    /// Divides the vector by `rhs` in place.
    pub fn div_assign(&mut self, rhs: Fixed)
        ensures
            *final(self) == old(self).div_spec(rhs),
    {
        self.x = self.x.div(rhs);
        self.y = self.y.div(rhs);
    }

    /// The vector that points the other way.
    pub fn neg(&self) -> (r: Vec2D)
        ensures
            r == self.neg_spec(),
    {
        Vec2D { x: self.x.neg(), y: self.y.neg() }
    }
}

} // verus!
