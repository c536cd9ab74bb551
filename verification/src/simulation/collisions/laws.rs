//! What holds of every contact.

use super::contacts::{
    centre_is_inside, circle_circle_spec, circle_rectangle_spec, closest_point,
    rectangle_overlaps, rectangle_rectangle_spec,
};
use super::{fast_collision_check_spec, generate_contact_dynamic_spec};
use crate::body::{Body, Circle, DynamicBody, Rectangle};
use crate::fixed::{
    lemma_component_below_root, lemma_div_by_magnitude, lemma_div_sign, lemma_floor_sqrt_below,
    lemma_floor_sqrt_exists, lemma_floor_sqrt_of_square, lemma_mul_by_unit, lemma_product_sign,
    magnitude, Fixed, SCALE,
};
use crate::vec2::{unit_down, unit_left, unit_right, unit_up, Vec2D};
use vstd::prelude::*;

verus! {

/// Two rectangles that have a contact overlap: its distance is negative,
/// and its normal is one of the four unit vectors along the axes.
pub proof fn lemma_rectangle_contact_overlaps(this: Rectangle, that: Rectangle)
    ensures
        rectangle_rectangle_spec(this, that) matches Some(contact) ==> {
            &&& contact.distance.raw < 0
            &&& (contact.normal == unit_left() || contact.normal == unit_right() || contact.normal
                == unit_up() || contact.normal == unit_down())
        },
{
}

/// Two rectangles that overlap as much along x as along y have a contact
/// along y.
pub proof fn lemma_rectangle_tie_takes_the_y_axis(this: Rectangle, that: Rectangle)
    requires
        rectangle_overlaps(this, that).0 == rectangle_overlaps(this, that).1,
        rectangle_overlaps(this, that).0.raw > 0,
    ensures
        rectangle_rectangle_spec(this, that) matches Some(contact) && (contact.normal == unit_up()
            || contact.normal == unit_down()),
{
}

/// The cheap test lets two circles pass exactly when the distance of their
/// contact is negative.
pub proof fn lemma_fast_check_of_circles_is_exact(this: Circle, that: Circle)
    ensures
        fast_collision_check_spec(
            Body::Dynamic(DynamicBody::Circle(this)),
            Body::Dynamic(DynamicBody::Circle(that)),
        ) == (circle_circle_spec(this, that).distance.raw < 0),
{
    let this_to_that = that.body.position.sub_spec(this.body.position);
    let x = this_to_that.x.raw as int;
    let y = this_to_that.y.raw as int;
    let squared = x * x + y * y;
    let reach = this.radius.add_spec(that.radius).raw as int;
    assert(0 <= x * x) by (nonlinear_arith);
    assert(0 <= y * y) by (nonlinear_arith);
    lemma_floor_sqrt_exists(squared);
    if reach > 0 {
        lemma_floor_sqrt_below(squared, reach);
    }
}

/// The contact of a rectangle with a circle whose centre lies inside it,
/// nearer to the vertical middle line than to the horizontal one or as
/// near: its distance is that of the centre from the face above or below,
/// less the radius; and unless the centre lies on that face, its normal is
/// the unit vector along y that points the way the rectangle's centre lies,
/// so that a correction moves the circle out through that face.
pub proof fn lemma_contact_of_inner_circle_along_y(this: Circle, that: Rectangle)
    requires
        that.half_width.raw > 0,
        that.half_height.raw > 0,
        centre_is_inside(that.body.position.sub_spec(this.body.position), that),
        that.body.position.sub_spec(this.body.position).x.abs_spec().raw
            <= that.body.position.sub_spec(this.body.position).y.abs_spec().raw,
    ensures
        circle_rectangle_spec(this, that).distance == that.half_height.sub_spec(
            that.body.position.sub_spec(this.body.position).y.abs_spec(),
        ).sub_spec(this.radius),
        that.body.position.sub_spec(this.body.position).y.abs_spec().raw < that.half_height.raw
            ==> circle_rectangle_spec(this, that).normal == (Vec2D {
            x: Fixed { raw: 0 },
            y: that.body.position.sub_spec(this.body.position).y.signum_spec(),
        }),
{
    let displacement = that.body.position.sub_spec(this.body.position);
    let closest = closest_point(displacement, that);
    lemma_mul_by_unit(that.half_height);
    let normal = displacement.sub_spec(closest);
    assert(normal.x.raw == 0);
    let gap = that.half_height.raw - magnitude(displacement.y.raw as int);
    assert(magnitude(normal.y.raw as int) == gap);
    lemma_product_sign(normal.y.raw as int, normal.y.raw as int);
    assert(normal.x.raw * normal.x.raw == 0);
    assert(normal.y.raw * normal.y.raw == gap * gap) by (nonlinear_arith)
        requires
            magnitude(normal.y.raw as int) == gap,
            magnitude(normal.y.raw as int) == if normal.y.raw < 0 {
                -normal.y.raw
            } else {
                normal.y.raw as int
            },
    ;
    lemma_floor_sqrt_of_square(gap);
    let length = normal.length_spec();
    assert(length.raw == gap);
    if gap > 0 {
        lemma_div_by_magnitude(normal.y, length);
        assert(0 * SCALE == 0);
        assert(magnitude(0) / magnitude(gap) == 0) by (nonlinear_arith)
            requires
                gap > 0,
                magnitude(0) == 0,
                magnitude(gap) == gap,
        ;
    }
}

/// The contact of a rectangle with a circle whose centre lies inside it,
/// nearer to the horizontal middle line than to the vertical one: its
/// distance is that of the centre from the face to the left or right, less
/// the radius; and unless the centre lies on that face, its normal is the
/// unit vector along x that points the way the rectangle's centre lies, so
/// that a correction moves the circle out through that face.
pub proof fn lemma_contact_of_inner_circle_along_x(this: Circle, that: Rectangle)
    requires
        that.half_width.raw > 0,
        that.half_height.raw > 0,
        centre_is_inside(that.body.position.sub_spec(this.body.position), that),
        that.body.position.sub_spec(this.body.position).x.abs_spec().raw
            > that.body.position.sub_spec(this.body.position).y.abs_spec().raw,
    ensures
        circle_rectangle_spec(this, that).distance == that.half_width.sub_spec(
            that.body.position.sub_spec(this.body.position).x.abs_spec(),
        ).sub_spec(this.radius),
        that.body.position.sub_spec(this.body.position).x.abs_spec().raw < that.half_width.raw
            ==> circle_rectangle_spec(this, that).normal == (Vec2D {
            x: that.body.position.sub_spec(this.body.position).x.signum_spec(),
            y: Fixed { raw: 0 },
        }),
{
    let displacement = that.body.position.sub_spec(this.body.position);
    let closest = closest_point(displacement, that);
    lemma_mul_by_unit(that.half_width);
    let normal = displacement.sub_spec(closest);
    assert(normal.y.raw == 0);
    let gap = that.half_width.raw - magnitude(displacement.x.raw as int);
    assert(magnitude(normal.x.raw as int) == gap);
    lemma_product_sign(normal.x.raw as int, normal.x.raw as int);
    assert(normal.y.raw * normal.y.raw == 0);
    assert(normal.x.raw * normal.x.raw == gap * gap) by (nonlinear_arith)
        requires
            magnitude(normal.x.raw as int) == gap,
            magnitude(normal.x.raw as int) == if normal.x.raw < 0 {
                -normal.x.raw
            } else {
                normal.x.raw as int
            },
    ;
    lemma_floor_sqrt_of_square(gap);
    let length = normal.length_spec();
    assert(length.raw == gap);
    if gap > 0 {
        lemma_div_by_magnitude(normal.x, length);
        assert(0 * SCALE == 0);
        assert(magnitude(0) / magnitude(gap) == 0) by (nonlinear_arith)
            requires
                gap > 0,
                magnitude(0) == 0,
                magnitude(gap) == gap,
        ;
    }
}

/// Whether the way from the centre of one body to that of the other can be
/// told, in either direction, without saturation.
pub open spec fn displacement_fits(this: DynamicBody, that: DynamicBody) -> bool {
    &&& -i64::MAX <= that.body().position.x.raw - this.body().position.x.raw <= i64::MAX
    &&& -i64::MAX <= that.body().position.y.raw - this.body().position.y.raw <= i64::MAX
}

/// Whether two bodies have a contact with a negative distance.
pub open spec fn penetrate(this: DynamicBody, that: DynamicBody) -> bool {
    match generate_contact_dynamic_spec(this, that) {
        Some(contact) => contact.distance.raw < 0,
        None => false,
    }
}

/// The boxes of two circles whose contact has a negative distance overlap.
pub proof fn lemma_penetrating_circles_have_overlapping_boxes(this: Circle, that: Circle)
    requires
        this.wf(),
        that.wf(),
        circle_circle_spec(this, that).distance.raw < 0,
    ensures
        that.to_bounding_volume_spec().is_intersecting_spec(this.to_bounding_volume_spec()),
        this.to_bounding_volume_spec().is_intersecting_spec(that.to_bounding_volume_spec()),
{
    let this_to_that = that.body.position.sub_spec(this.body.position);
    lemma_component_below_root(this_to_that.x.raw as int, this_to_that.y.raw as int);
}

/// The boxes of two rectangles that have a contact overlap.
pub proof fn lemma_penetrating_rectangles_have_overlapping_boxes(this: Rectangle, that: Rectangle)
    requires
        this.wf(),
        that.wf(),
        rectangle_rectangle_spec(this, that) is Some,
    ensures
        that.to_bounding_volume_spec().is_intersecting_spec(this.to_bounding_volume_spec()),
        this.to_bounding_volume_spec().is_intersecting_spec(that.to_bounding_volume_spec()),
{
}

/// The boxes of a circle and a rectangle whose contact has a negative
/// distance overlap, where the way between their centres can be told.
pub proof fn lemma_penetrating_circle_and_rectangle_have_overlapping_boxes(
    this: Circle,
    that: Rectangle,
)
    requires
        this.wf(),
        that.wf(),
        displacement_fits(DynamicBody::Circle(this), DynamicBody::Rectangle(that)),
        circle_rectangle_spec(this, that).distance.raw < 0,
    ensures
        that.to_bounding_volume_spec().is_intersecting_spec(this.to_bounding_volume_spec()),
        this.to_bounding_volume_spec().is_intersecting_spec(that.to_bounding_volume_spec()),
{
    let displacement = that.body.position.sub_spec(this.body.position);
    let closest = closest_point(displacement, that);
    let normal = displacement.sub_spec(closest);
    lemma_component_below_root(normal.x.raw as int, normal.y.raw as int);
    if centre_is_inside(displacement, that) {
    } else {
        assert(closest == displacement.clamp_spec(
            (Vec2D { x: that.half_width, y: that.half_height }).neg_spec(),
            Vec2D { x: that.half_width, y: that.half_height },
        ));
    }
}

/// The boxes of two well-formed bodies whose contact has a negative
/// distance overlap, where the way between their centres can be told: a
/// search among overlapping boxes misses no such pair.
pub proof fn lemma_penetrating_bodies_have_overlapping_boxes(this: DynamicBody, that: DynamicBody)
    requires
        this.wf(),
        that.wf(),
        displacement_fits(this, that),
        penetrate(this, that),
    ensures
        that.to_bounding_volume_spec().is_intersecting_spec(this.to_bounding_volume_spec()),
        this.to_bounding_volume_spec().is_intersecting_spec(that.to_bounding_volume_spec()),
{
    match (this, that) {
        (DynamicBody::Circle(this), DynamicBody::Circle(that)) => {
            lemma_penetrating_circles_have_overlapping_boxes(this, that);
        },
        (DynamicBody::Rectangle(this), DynamicBody::Rectangle(that)) => {
            lemma_penetrating_rectangles_have_overlapping_boxes(this, that);
        },
        (DynamicBody::Circle(this), DynamicBody::Rectangle(that)) => {
            lemma_penetrating_circle_and_rectangle_have_overlapping_boxes(this, that);
        },
        (DynamicBody::Rectangle(this), DynamicBody::Circle(that)) => {
            lemma_penetrating_circle_and_rectangle_have_overlapping_boxes(that, this);
        },
    }
}

/// The cheap test lets every pair of well-formed bodies pass whose contact
/// has a negative distance.
pub proof fn lemma_fast_check_lets_penetrating_bodies_pass(this: DynamicBody, that: DynamicBody)
    requires
        this.wf(),
        that.wf(),
        penetrate(this, that),
    ensures
        fast_collision_check_spec(Body::Dynamic(this), Body::Dynamic(that)),
{
    match (this, that) {
        (DynamicBody::Circle(this), DynamicBody::Circle(that)) => {
            lemma_fast_check_of_circles_is_exact(this, that);
        },
        (DynamicBody::Rectangle(this), DynamicBody::Rectangle(that)) => {
            lemma_penetrating_rectangles_have_overlapping_boxes(this, that);
        },
        _ => {},
    }
}

/// Whether no component of `normal` points against the matching component
/// of `displacement`.
pub open spec fn points_along(normal: Vec2D, displacement: Vec2D) -> bool {
    &&& displacement.x.raw > 0 ==> normal.x.raw >= 0
    &&& displacement.x.raw < 0 ==> normal.x.raw <= 0
    &&& displacement.y.raw > 0 ==> normal.y.raw >= 0
    &&& displacement.y.raw < 0 ==> normal.y.raw <= 0
}

/// The length of a vector is not negative.
pub proof fn lemma_length_is_not_negative(vector: Vec2D)
    ensures
        vector.length_spec().raw >= 0,
{
    lemma_component_below_root(vector.x.raw as int, vector.y.raw as int);
}

/// The normal of the contact of two circles points from the centre of the
/// first toward that of the second.
pub proof fn lemma_circle_contact_points_to_the_second(this: Circle, that: Circle)
    ensures
        points_along(
            circle_circle_spec(this, that).normal,
            that.body.position.sub_spec(this.body.position),
        ),
{
    let this_to_that = that.body.position.sub_spec(this.body.position);
    lemma_length_is_not_negative(this_to_that);
    lemma_div_sign(this_to_that.x, this_to_that.length_spec());
    lemma_div_sign(this_to_that.y, this_to_that.length_spec());
}

/// The normal of the contact of a circle with a rectangle points from the
/// centre of the circle toward that of the rectangle, wherever the centre
/// of the circle lies.
pub proof fn lemma_circle_rectangle_contact_points_to_the_rectangle(this: Circle, that: Rectangle)
    requires
        that.half_width.raw > 0,
        that.half_height.raw > 0,
    ensures
        points_along(
            circle_rectangle_spec(this, that).normal,
            that.body.position.sub_spec(this.body.position),
        ),
{
    let displacement = that.body.position.sub_spec(this.body.position);
    let closest = closest_point(displacement, that);
    let normal = displacement.sub_spec(closest);
    let length = normal.length_spec();
    lemma_length_is_not_negative(normal);
    lemma_div_sign(normal.x, length);
    lemma_div_sign(normal.y, length);
    if centre_is_inside(displacement, that) {
        lemma_mul_by_unit(that.half_width);
        lemma_mul_by_unit(that.half_height);
    }
}

/// The normal of every contact of two well-formed moving bodies points from
/// the first toward the second.
pub proof fn lemma_contact_points_to_the_second(this: DynamicBody, that: DynamicBody)
    requires
        this.wf(),
        that.wf(),
    ensures
        generate_contact_dynamic_spec(this, that) matches Some(contact) ==> points_along(
            contact.normal,
            that.body().position.sub_spec(this.body().position),
        ),
{
    match (this, that) {
        (DynamicBody::Circle(this), DynamicBody::Circle(that)) => {
            lemma_circle_contact_points_to_the_second(this, that);
        },
        (DynamicBody::Rectangle(_), DynamicBody::Rectangle(_)) => {},
        (DynamicBody::Circle(this), DynamicBody::Rectangle(that)) => {
            lemma_circle_rectangle_contact_points_to_the_rectangle(this, that);
        },
        (DynamicBody::Rectangle(this), DynamicBody::Circle(that)) => {
            lemma_circle_rectangle_contact_points_to_the_rectangle(that, this);
        },
    }
}

} // verus!
