//! The contact of each pair of shapes.

use super::Contact;
use crate::body::{Circle, Line, Rectangle};
use crate::fixed::Fixed;
use crate::vec2::{unit_down, unit_left, unit_right, unit_up, Vec2D};
use vstd::prelude::*;

verus! {

/// Two circles: the normal runs from centre to centre, and the distance is
/// that of the centres less both radii. Circles with one centre have the
/// zero vector for a normal.
pub open spec fn circle_circle_spec(this: Circle, that: Circle) -> Contact {
    let this_to_that = that.body.position.sub_spec(this.body.position);
    let length = this_to_that.length_spec();
    Contact {
        normal: this_to_that.div_spec(length),
        distance: length.sub_spec(this.radius.add_spec(that.radius)),
    }
}

/// By how much two rectangles overlap along x and along y.
pub open spec fn rectangle_overlaps(this: Rectangle, that: Rectangle) -> (Fixed, Fixed) {
    let displacement = that.body.position.sub_spec(this.body.position);
    (
        this.half_width.add_spec(that.half_width).sub_spec(displacement.x.abs_spec()),
        this.half_height.add_spec(that.half_height).sub_spec(displacement.y.abs_spec()),
    )
}

/// Two rectangles: none unless they overlap on both axes. The normal lies
/// along the axis of the smaller overlap, along y when the two are equal,
/// and points the way the second rectangle lies; the distance is that
/// overlap, negated.
pub open spec fn rectangle_rectangle_spec(this: Rectangle, that: Rectangle) -> Option<Contact> {
    let displacement = that.body.position.sub_spec(this.body.position);
    let (x_overlap, y_overlap) = rectangle_overlaps(this, that);
    if x_overlap.raw <= 0 || y_overlap.raw <= 0 {
        None
    } else if x_overlap.raw < y_overlap.raw {
        Some(
            Contact {
                normal: if displacement.x.raw < 0 {
                    unit_left()
                } else {
                    unit_right()
                },
                distance: x_overlap.neg_spec(),
            },
        )
    } else {
        Some(
            Contact {
                normal: if displacement.y.raw < 0 {
                    unit_up()
                } else {
                    unit_down()
                },
                distance: y_overlap.neg_spec(),
            },
        )
    }
}

/// The way to the centre of the rectangle from the point of its outline
/// that is taken to lie closest to the centre of the circle, from which
/// `displacement` runs to the centre of the rectangle.
///
/// Where the circle's centre lies outside the rectangle, this is the
/// displacement clamped to the half extents. Where it lies inside, the
/// component of the displacement that is larger in magnitude is pushed out
/// to the face on its side, and the other is kept.
pub open spec fn closest_point(displacement: Vec2D, that: Rectangle) -> Vec2D {
    let half_extents = Vec2D { x: that.half_width, y: that.half_height };
    let clamped = displacement.clamp_spec(half_extents.neg_spec(), half_extents);
    if clamped == displacement {
        if displacement.x.abs_spec().raw > displacement.y.abs_spec().raw {
            Vec2D { x: clamped.x.signum_spec().mul_spec(that.half_width), y: clamped.y }
        } else {
            Vec2D { x: clamped.x, y: clamped.y.signum_spec().mul_spec(that.half_height) }
        }
    } else {
        clamped
    }
}

/// Whether the centre of a circle, from which `displacement` runs to the
/// centre of the rectangle, lies within the rectangle.
pub open spec fn centre_is_inside(displacement: Vec2D, that: Rectangle) -> bool {
    let half_extents = Vec2D { x: that.half_width, y: that.half_height };
    displacement.clamp_spec(half_extents.neg_spec(), half_extents) == displacement
}

/// A circle and a rectangle: the distance is that between the circle's
/// centre and the closest point of the outline, less the radius. The normal
/// runs from the circle's centre to that point, and the other way where the
/// centre lies inside the rectangle, so that it always points from the
/// circle toward the rectangle and a correction drives the two apart. A
/// centre on the outline has the zero vector for a normal.
pub open spec fn circle_rectangle_spec(this: Circle, that: Rectangle) -> Contact {
    let displacement = that.body.position.sub_spec(this.body.position);
    let normal = displacement.sub_spec(closest_point(displacement, that));
    let length = normal.length_spec();
    let distance = length.sub_spec(this.radius);
    if centre_is_inside(displacement, that) {
        Contact { normal: normal.div_spec(length).neg_spec(), distance }
    } else {
        Contact { normal: normal.div_spec(length), distance }
    }
}

/// A line and a circle: the normal is the line's own, and the distance is
/// that of the centre from the line, less the radius.
pub open spec fn line_circle_spec(this: Line, that: Circle) -> Contact {
    Contact {
        normal: this.normal,
        distance: this.signed_distance_spec(that.body.position).sub_spec(that.radius),
    }
}

/// The corner of the rectangle that lies `offset` from its centre.
pub open spec fn corner(that: Rectangle, offset: Vec2D) -> Vec2D {
    that.body.position.add_spec(offset)
}

/// A line and a rectangle: the normal is the line's own, and the distance is
/// the smallest among those of the four corners from the line.
pub open spec fn line_rectangle_spec(this: Line, that: Rectangle) -> Contact {
    let width = that.half_width;
    let height = that.half_height;
    let first = this.signed_distance_spec(corner(that, Vec2D { x: width, y: height }));
    let second = this.signed_distance_spec(corner(that, Vec2D { x: width, y: height.neg_spec() }));
    let third = this.signed_distance_spec(
        corner(that, Vec2D { x: width.neg_spec(), y: height.neg_spec() }),
    );
    let fourth = this.signed_distance_spec(corner(that, Vec2D { x: width.neg_spec(), y: height }));
    Contact {
        normal: this.normal,
        distance: first.min_spec(second).min_spec(third).min_spec(fourth),
    }
}

/// The contact of two circles.
pub fn circle_circle(this: &Circle, that: &Circle) -> (r: Contact)
    ensures
        r == circle_circle_spec(*this, *that),
{
    let this_to_that: Vec2D = that.body.position.sub(&this.body.position);
    let length: Fixed = this_to_that.length();
    let distance: Fixed = length.sub(this.radius.add(that.radius));
    Contact { normal: this_to_that.div(length), distance }
}

/// The contact of two rectangles, if they overlap.
pub fn rectangle_rectangle(this: &Rectangle, that: &Rectangle) -> (r: Option<Contact>)
    ensures
        r == rectangle_rectangle_spec(*this, *that),
        r is Some <==> rectangle_overlaps(*this, *that).0.raw > 0 && rectangle_overlaps(
            *this,
            *that,
        ).1.raw > 0,
{
    let displacement: Vec2D = that.body.position.sub(&this.body.position);
    let x_overlap: Fixed = this.half_width.add(that.half_width).sub(displacement.x.abs());
    let y_overlap: Fixed = this.half_height.add(that.half_height).sub(displacement.y.abs());
    if x_overlap.raw <= 0 || y_overlap.raw <= 0 {
        return None;
    }
    if x_overlap.raw < y_overlap.raw {
        let normal: Vec2D = if displacement.x.raw < 0 {
            unit_left()
        } else {
            unit_right()
        };
        Some(Contact { normal, distance: x_overlap.neg() })
    } else {
        let normal: Vec2D = if displacement.y.raw < 0 {
            unit_up()
        } else {
            unit_down()
        };
        Some(Contact { normal, distance: y_overlap.neg() })
    }
}

/// The contact of a circle with a rectangle.
pub fn circle_rectangle(this: &Circle, that: &Rectangle) -> (r: Contact)
    ensures
        r == circle_rectangle_spec(*this, *that),
{
    let displacement: Vec2D = that.body.position.sub(&this.body.position);
    let half_extents: Vec2D = Vec2D { x: that.half_width, y: that.half_height };
    let clamped_displacement: Vec2D = displacement.clamp(&half_extents.neg(), &half_extents);
    let is_inside: bool = clamped_displacement == displacement;
    let closest_point: Vec2D = if is_inside {
        if displacement.x.abs().raw > displacement.y.abs().raw {
            Vec2D {
                x: clamped_displacement.x.signum().mul(that.half_width),
                y: clamped_displacement.y,
            }
        } else {
            Vec2D {
                x: clamped_displacement.x,
                y: clamped_displacement.y.signum().mul(that.half_height),
            }
        }
    } else {
        clamped_displacement
    };
    let normal: Vec2D = displacement.sub(&closest_point);
    let length: Fixed = normal.length();
    let distance: Fixed = length.sub(this.radius);
    if is_inside {
        Contact { normal: normal.div(length).neg(), distance }
    } else {
        Contact { normal: normal.div(length), distance }
    }
}

/// The contact of a line with a circle.
pub fn line_circle(this: &Line, that: &Circle) -> (r: Contact)
    ensures
        r == line_circle_spec(*this, *that),
{
    let distance: Fixed = this.signed_distance(&that.body.position).sub(that.radius);
    Contact { normal: this.normal, distance }
}

/// The contact of a line with a rectangle.
pub fn line_rectangle(this: &Line, that: &Rectangle) -> (r: Contact)
    ensures
        r == line_rectangle_spec(*this, *that),
{
    let width: Fixed = that.half_width;
    let height: Fixed = that.half_height;
    let centre: Vec2D = that.body.position;
    let first: Fixed = this.signed_distance(&centre.add(&Vec2D { x: width, y: height }));
    let second: Fixed = this.signed_distance(&centre.add(&Vec2D { x: width, y: height.neg() }));
    let third: Fixed = this.signed_distance(
        &centre.add(&Vec2D { x: width.neg(), y: height.neg() }),
    );
    let fourth: Fixed = this.signed_distance(&centre.add(&Vec2D { x: width.neg(), y: height }));
    Contact { normal: this.normal, distance: first.min(second).min(third).min(fourth) }
}

} // verus!
