//! Two-dimensional vectors of fixed-point numbers.

use crate::fixed::{
    floor_sqrt, integer_sqrt, lemma_product_sign, magnitude_of, saturate, with_sign, Fixed, SCALE,
};
use vstd::prelude::*;

pub mod arithmetic;

verus! {

/// A vector, or a point, in the plane. The y axis points down.
#[derive(Clone, Copy, Debug, PartialEq, Eq, Hash, Structural)]
pub struct Vec2D {
    pub x: Fixed,
    pub y: Fixed,
}

/// The zero vector.
pub open spec fn spec_zero() -> Vec2D {
    Vec2D { x: Fixed { raw: 0 }, y: Fixed { raw: 0 } }
}

/// The unit vector that points up.
pub open spec fn spec_unit_up() -> Vec2D {
    Vec2D { x: Fixed { raw: 0 }, y: Fixed { raw: (-SCALE) as i64 } }
}

/// The unit vector that points right.
pub open spec fn spec_unit_right() -> Vec2D {
    Vec2D { x: Fixed { raw: SCALE }, y: Fixed { raw: 0 } }
}

/// The unit vector that points down.
pub open spec fn spec_unit_down() -> Vec2D {
    Vec2D { x: Fixed { raw: 0 }, y: Fixed { raw: SCALE } }
}

/// The unit vector that points left.
pub open spec fn spec_unit_left() -> Vec2D {
    Vec2D { x: Fixed { raw: (-SCALE) as i64 }, y: Fixed { raw: 0 } }
}

/// The zero vector.
#[verifier::when_used_as_spec(spec_zero)]
pub fn zero() -> (r: Vec2D)
    ensures
        r == spec_zero(),
{
    Vec2D { x: Fixed { raw: 0 }, y: Fixed { raw: 0 } }
}

/// The unit vector that points up.
#[verifier::when_used_as_spec(spec_unit_up)]
pub fn unit_up() -> (r: Vec2D)
    ensures
        r == spec_unit_up(),
{
    Vec2D { x: Fixed { raw: 0 }, y: Fixed { raw: -SCALE } }
}

/// The unit vector that points right.
#[verifier::when_used_as_spec(spec_unit_right)]
pub fn unit_right() -> (r: Vec2D)
    ensures
        r == spec_unit_right(),
{
    Vec2D { x: Fixed { raw: SCALE }, y: Fixed { raw: 0 } }
}

/// The unit vector that points down.
#[verifier::when_used_as_spec(spec_unit_down)]
pub fn unit_down() -> (r: Vec2D)
    ensures
        r == spec_unit_down(),
{
    Vec2D { x: Fixed { raw: 0 }, y: Fixed { raw: SCALE } }
}

/// The unit vector that points left.
#[verifier::when_used_as_spec(spec_unit_left)]
pub fn unit_left() -> (r: Vec2D)
    ensures
        r == spec_unit_left(),
{
    Vec2D { x: Fixed { raw: -SCALE }, y: Fixed { raw: 0 } }
}

impl Vec2D {
    /// The sum of the products of matching components.
    pub open spec fn dot_product_spec(self, other: Vec2D) -> Fixed {
        self.x.mul_spec(other.x).add_spec(self.y.mul_spec(other.y))
    }

    /// The dot product of the vector with itself.
    pub open spec fn length_squared_spec(self) -> Fixed {
        self.dot_product_spec(self)
    }

    /// The Euclidean length: the integer part, in raw units, of the square
    /// root of the sum of the squared components, saturated.
    pub open spec fn length_spec(self) -> Fixed {
        Fixed {
            raw: saturate(floor_sqrt(self.x.raw * self.x.raw + self.y.raw * self.y.raw)) as i64,
        }
    }

    /// The vector of absolute values.
    pub open spec fn abs_spec(self) -> Vec2D {
        Vec2D { x: self.x.abs_spec(), y: self.y.abs_spec() }
    }

    /// Each component clamped between the matching components of `min` and
    /// `max`.
    pub open spec fn clamp_spec(self, min: Vec2D, max: Vec2D) -> Vec2D {
        Vec2D { x: self.x.clamp_spec(min.x, max.x), y: self.y.clamp_spec(min.y, max.y) }
    }

    /// The vector of the smaller components.
    pub open spec fn min_spec(self, other: Vec2D) -> Vec2D {
        Vec2D { x: self.x.min_spec(other.x), y: self.y.min_spec(other.y) }
    }

    /// The vector of the larger components.
    pub open spec fn max_spec(self, other: Vec2D) -> Vec2D {
        Vec2D { x: self.x.max_spec(other.x), y: self.y.max_spec(other.y) }
    }

    /// The sum of the products of matching components.
    pub fn dot_product(&self, other: &Vec2D) -> (r: Fixed)
        ensures
            r == self.dot_product_spec(*other),
    {
        self.x.mul(other.x).add(self.y.mul(other.y))
    }

    /// The dot product of the vector with itself.
    pub fn length_squared(&self) -> (r: Fixed)
        ensures
            r == self.length_squared_spec(),
    {
        self.dot_product(self)
    }

    /// The Euclidean length.
    pub fn length(&self) -> (r: Fixed)
        ensures
            r == self.length_spec(),
    {
        let a: u128 = magnitude_of(self.x.raw);
        let b: u128 = magnitude_of(self.y.raw);
        assert(a * a <= 0x8000_0000_0000_0000 * 0x8000_0000_0000_0000) by (nonlinear_arith)
            requires
                0 <= a <= 0x8000_0000_0000_0000,
        ;
        assert(b * b <= 0x8000_0000_0000_0000 * 0x8000_0000_0000_0000) by (nonlinear_arith)
            requires
                0 <= b <= 0x8000_0000_0000_0000,
        ;
        proof {
            lemma_product_sign(self.x.raw as int, self.x.raw as int);
            lemma_product_sign(self.y.raw as int, self.y.raw as int);
        }
        let root: u128 = integer_sqrt(a * a + b * b);
        with_sign(root, false)
    }

    /// The vector of absolute values.
    pub fn abs(&self) -> (r: Vec2D)
        ensures
            r == self.abs_spec(),
    {
        Vec2D { x: self.x.abs(), y: self.y.abs() }
    }

    /// Each component clamped between the matching components of `min` and
    /// `max`.
    pub fn clamp(&self, min: &Vec2D, max: &Vec2D) -> (r: Vec2D)
        ensures
            r == self.clamp_spec(*min, *max),
    {
        Vec2D { x: self.x.clamp(min.x, max.x), y: self.y.clamp(min.y, max.y) }
    }

    /// The vector of the smaller components.
    pub fn min(&self, other: &Vec2D) -> (r: Vec2D)
        ensures
            r == self.min_spec(*other),
    {
        Vec2D { x: self.x.min(other.x), y: self.y.min(other.y) }
    }

    /// The vector of the larger components.
    pub fn max(&self, other: &Vec2D) -> (r: Vec2D)
        ensures
            r == self.max_spec(*other),
    {
        Vec2D { x: self.x.max(other.x), y: self.y.max(other.y) }
    }
}

} // verus!
