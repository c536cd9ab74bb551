//! The narrow phase: for a pair of bodies, the direction and the depth of
//! their contact.

use crate::body::{Body, DynamicBody, StaticBody};
use crate::fixed::{lemma_product_sign, magnitude_of, Fixed};
use crate::vec2::Vec2D;
use vstd::prelude::*;

pub mod contacts;
pub mod laws;

pub use contacts::{
    circle_circle, circle_rectangle, line_circle, line_rectangle, rectangle_rectangle,
};

verus! {

/// How two bodies meet. The normal points from the first body toward the
/// second. A negative distance is the depth by which they overlap; a
/// distance of zero or more says that they do not.
#[derive(Clone, Copy, Debug, PartialEq, Eq, Structural)]
pub struct Contact {
    pub normal: Vec2D,
    pub distance: Fixed,
}

impl Contact {
    /// The same contact seen from the other body.
    pub open spec fn flip_spec(self) -> Contact {
        Contact { normal: self.normal.neg_spec(), distance: self.distance }
    }

    /// The same contact seen from the other body.
    pub fn flip(self) -> (r: Contact)
        ensures
            r == self.flip_spec(),
    {
        Contact { normal: self.normal.neg(), distance: self.distance }
    }
}

/// The contact of a static body with a moving one.
pub open spec fn generate_contact_static_spec(this: StaticBody, that: DynamicBody) -> Contact {
    match (this, that) {
        (StaticBody::Line(this), DynamicBody::Circle(that)) => contacts::line_circle_spec(
            this,
            that,
        ),
        (StaticBody::Line(this), DynamicBody::Rectangle(that)) => contacts::line_rectangle_spec(
            this,
            that,
        ),
    }
}

/// The contact of two moving bodies. Two rectangles that do not overlap
/// have none; every other pair has one, whose distance may be zero or more.
pub open spec fn generate_contact_dynamic_spec(this: DynamicBody, that: DynamicBody) -> Option<
    Contact,
> {
    match (this, that) {
        (DynamicBody::Circle(this), DynamicBody::Circle(that)) => Some(
            contacts::circle_circle_spec(this, that),
        ),
        (DynamicBody::Rectangle(this), DynamicBody::Rectangle(that)) => {
            contacts::rectangle_rectangle_spec(this, that)
        },
        (DynamicBody::Circle(this), DynamicBody::Rectangle(that)) => Some(
            contacts::circle_rectangle_spec(this, that),
        ),
        (DynamicBody::Rectangle(this), DynamicBody::Circle(that)) => Some(
            contacts::circle_rectangle_spec(that, this).flip_spec(),
        ),
    }
}

/// Whether a pair may be in contact at all, as far as a cheap test can tell.
///
/// Two static bodies never are. A static and a moving body always may be, and
/// so may a circle and a rectangle. Two circles may be when the squared
/// distance of their centres is less than the square of the sum of their
/// radii; two rectangles when their boxes overlap.
pub open spec fn fast_collision_check_spec(this: Body, that: Body) -> bool {
    match (this, that) {
        (Body::Static(_), Body::Static(_)) => false,
        (Body::Static(_), Body::Dynamic(_)) => true,
        (Body::Dynamic(_), Body::Static(_)) => true,
        (Body::Dynamic(DynamicBody::Circle(this)), Body::Dynamic(DynamicBody::Circle(that))) => {
            let this_to_that = that.body.position.sub_spec(this.body.position);
            let reach = this.radius.add_spec(that.radius);
            reach.raw > 0 && this_to_that.x.raw * this_to_that.x.raw + this_to_that.y.raw
                * this_to_that.y.raw < reach.raw * reach.raw
        },
        (
            Body::Dynamic(DynamicBody::Rectangle(this)),
            Body::Dynamic(DynamicBody::Rectangle(that)),
        ) => {
            let (this_min_x, this_max_x, this_min_y, this_max_y) = this.get_min_max_spec();
            let (that_min_x, that_max_x, that_min_y, that_max_y) = that.get_min_max_spec();
            this_min_x.raw < that_max_x.raw && that_min_x.raw < this_max_x.raw && this_min_y.raw
                < that_max_y.raw && that_min_y.raw < this_max_y.raw
        },
        (Body::Dynamic(_), Body::Dynamic(_)) => true,
    }
}

/// The contact of a static body with a moving one.
pub fn generate_contact_static(this: &StaticBody, that: &DynamicBody) -> (r: Contact)
    ensures
        r == generate_contact_static_spec(*this, *that),
{
    match (this, that) {
        (StaticBody::Line(this), DynamicBody::Circle(that)) => contacts::line_circle(this, that),
        (StaticBody::Line(this), DynamicBody::Rectangle(that)) => {
            contacts::line_rectangle(this, that)
        },
    }
}

/// The contact of two moving bodies. Two rectangles that do not overlap
/// have none; every other pair has one, whose distance may be zero or more.
pub fn generate_contact_dynamic(this: &DynamicBody, that: &DynamicBody) -> (r: Option<Contact>)
    ensures
        r == generate_contact_dynamic_spec(*this, *that),
        r is None <==> (this matches DynamicBody::Rectangle(a)
            && that matches DynamicBody::Rectangle(b)
            && contacts::rectangle_rectangle_spec(*a, *b) is None),
{
    match (this, that) {
        (DynamicBody::Circle(this), DynamicBody::Circle(that)) => Some(
            contacts::circle_circle(this, that),
        ),
        (DynamicBody::Rectangle(this), DynamicBody::Rectangle(that)) => {
            contacts::rectangle_rectangle(this, that)
        },
        (DynamicBody::Circle(this), DynamicBody::Rectangle(that)) => Some(
            contacts::circle_rectangle(this, that),
        ),
        (DynamicBody::Rectangle(this), DynamicBody::Circle(that)) => Some(
            contacts::circle_rectangle(that, this).flip(),
        ),
    }
}

/// Whether a pair may be in contact at all, as far as a cheap test can tell.
pub fn fast_collision_check(this: &Body, that: &Body) -> (r: bool)
    ensures
        r == fast_collision_check_spec(*this, *that),
{
    match (this, that) {
        (Body::Static(_), Body::Static(_)) => false,
        (Body::Static(_), Body::Dynamic(_)) => true,
        (Body::Dynamic(_), Body::Static(_)) => true,
        (Body::Dynamic(DynamicBody::Circle(this)), Body::Dynamic(DynamicBody::Circle(that))) => {
            let this_to_that: Vec2D = that.body.position.sub(&this.body.position);
            let reach: Fixed = this.radius.add(that.radius);
            if reach.raw <= 0 {
                return false;
            }
            let x: u128 = magnitude_of(this_to_that.x.raw);
            let y: u128 = magnitude_of(this_to_that.y.raw);
            let sum: u128 = magnitude_of(reach.raw);
            assert(x * x <= 0x8000_0000_0000_0000 * 0x8000_0000_0000_0000) by (nonlinear_arith)
                requires
                    0 <= x <= 0x8000_0000_0000_0000,
            ;
            assert(y * y <= 0x8000_0000_0000_0000 * 0x8000_0000_0000_0000) by (nonlinear_arith)
                requires
                    0 <= y <= 0x8000_0000_0000_0000,
            ;
            assert(sum * sum <= 0x8000_0000_0000_0000 * 0x8000_0000_0000_0000) by (nonlinear_arith)
                requires
                    0 <= sum <= 0x8000_0000_0000_0000,
            ;
            proof {
                lemma_product_sign(this_to_that.x.raw as int, this_to_that.x.raw as int);
                lemma_product_sign(this_to_that.y.raw as int, this_to_that.y.raw as int);
            }
            x * x + y * y < sum * sum
        },
        (
            Body::Dynamic(DynamicBody::Rectangle(this)),
            Body::Dynamic(DynamicBody::Rectangle(that)),
        ) => {
            let (this_min_x, this_max_x, this_min_y, this_max_y) = this.get_min_max();
            let (that_min_x, that_max_x, that_min_y, that_max_y) = that.get_min_max();
            this_min_x.raw < that_max_x.raw && that_min_x.raw < this_max_x.raw && this_min_y.raw
                < that_max_y.raw && that_min_y.raw < this_max_y.raw
        },
        (Body::Dynamic(_), Body::Dynamic(_)) => true,
    }
}

} // verus!
