//! The response to a contact: an impulse on the velocities and a correction
//! of the positions.

use crate::body::{BaseDynamicBody, DynamicBody, StaticBody};
use crate::fixed::{
    lemma_div_sign, lemma_mul_by_unit, lemma_mul_by_zero, lemma_mul_sign, magnitude, Fixed, SCALE,
};
use crate::simulation::collisions::{generate_contact_static, generate_contact_static_spec, Contact};
use crate::vec2::{unit_down, unit_left, unit_right, unit_up, zero, Vec2D};
use vstd::prelude::*;

verus! {

/// The depth of overlap that is left uncorrected, in raw units: a twentieth
/// of a unit.
pub const CORRECTION_THRESHOLD: i64 = 50_000;

/// The share of the remaining overlap that one correction removes, in raw
/// units: four tenths.
pub const CORRECTION_PERCENTAGE: i64 = 400_000;

/// The moving part that stands for a static body: at rest at the origin,
/// perfectly elastic, of infinite mass.
pub open spec fn immovable_spec() -> BaseDynamicBody {
    BaseDynamicBody {
        position: zero(),
        velocity: zero(),
        coefficient_of_restitution: Fixed { raw: SCALE },
        inverse_mass: Fixed { raw: 0 },
    }
}

/// The speed at which the second body moves away from the first along the
/// normal of the contact: negative while they approach.
pub open spec fn separating_speed(
    contact: Contact,
    this_body: BaseDynamicBody,
    that_body: BaseDynamicBody,
) -> Fixed {
    that_body.velocity.sub_spec(this_body.velocity).dot_product_spec(contact.normal)
}

/// The impulse that a contact exerts: none while the bodies separate, and
/// otherwise the normal scaled by
/// `(1 + e) * separating speed / (sum of the inverse masses)`,
/// where `e` is the smaller of the two restitutions.
pub open spec fn get_impulse_spec(
    contact: Contact,
    this_body: BaseDynamicBody,
    that_body: BaseDynamicBody,
) -> Option<Vec2D> {
    let relative_velocity_dot_normal = separating_speed(contact, this_body, that_body);
    if relative_velocity_dot_normal.raw > 0 {
        None
    } else {
        let coefficient_of_restitution = this_body.coefficient_of_restitution.min_spec(
            that_body.coefficient_of_restitution,
        );
        let impulse_amount = Fixed { raw: SCALE }.add_spec(coefficient_of_restitution).mul_spec(
            relative_velocity_dot_normal,
        ).div_spec(this_body.inverse_mass.add_spec(that_body.inverse_mass));
        Some(contact.normal.mul_spec(impulse_amount))
    }
}

/// The correction that a contact calls for: the normal scaled by
/// `min(distance + threshold, 0) * percentage / (sum of the inverse masses)`.
pub open spec fn get_correction_spec(
    contact: Contact,
    this_body: BaseDynamicBody,
    that_body: BaseDynamicBody,
) -> Vec2D {
    let correction_amount = contact.distance.add_spec(Fixed { raw: CORRECTION_THRESHOLD }).min_spec(
        Fixed { raw: 0 },
    ).mul_spec(Fixed { raw: CORRECTION_PERCENTAGE }).div_spec(
        this_body.inverse_mass.add_spec(that_body.inverse_mass),
    );
    contact.normal.mul_spec(correction_amount)
}

/// A moving body after its contact with a static one has been resolved.
///
/// Nothing changes unless the distance of the contact is negative. If it
/// is, the impulse, if there is one, is taken from the velocity, and then
/// the correction from the position, each scaled by the inverse mass.
pub open spec fn handle_collision_static_spec(this: StaticBody, that: DynamicBody) -> DynamicBody {
    let contact = generate_contact_static_spec(this, that);
    if contact.distance.raw >= 0 {
        that
    } else {
        let body = that.body();
        let velocity = match get_impulse_spec(contact, immovable_spec(), body) {
            Some(impulse) => body.velocity.sub_spec(impulse.mul_spec(body.inverse_mass)),
            None => body.velocity,
        };
        let body = BaseDynamicBody { velocity, ..body };
        let correction = get_correction_spec(contact, immovable_spec(), body);
        let position = body.position.sub_spec(correction.mul_spec(body.inverse_mass));
        that.with_body(BaseDynamicBody { position, ..body })
    }
}

/// Two moving bodies after the impulse of their contact: while they
/// separate nothing changes; otherwise the impulse, scaled by each inverse
/// mass, is added to the velocity of the first and taken from that of the
/// second. Positions stay as they are.
pub open spec fn handle_collision_spec(this: DynamicBody, that: DynamicBody, contact: Contact) -> (
    DynamicBody,
    DynamicBody,
) {
    match get_impulse_spec(contact, this.body(), that.body()) {
        Some(impulse) => (
            this.with_body(
                BaseDynamicBody {
                    velocity: this.body().velocity.add_spec(
                        impulse.mul_spec(this.body().inverse_mass),
                    ),
                    ..this.body()
                },
            ),
            that.with_body(
                BaseDynamicBody {
                    velocity: that.body().velocity.sub_spec(
                        impulse.mul_spec(that.body().inverse_mass),
                    ),
                    ..that.body()
                },
            ),
        ),
        None => (this, that),
    }
}

/// Two moving bodies after the correction of their contact: the correction,
/// scaled by each inverse mass, is added to the position of the first and
/// taken from that of the second. Velocities stay as they are.
pub open spec fn correct_positions_spec(this: DynamicBody, that: DynamicBody, contact: Contact) -> (
    DynamicBody,
    DynamicBody,
) {
    let correction = get_correction_spec(contact, this.body(), that.body());
    (
        this.with_body(
            BaseDynamicBody {
                position: this.body().position.add_spec(
                    correction.mul_spec(this.body().inverse_mass),
                ),
                ..this.body()
            },
        ),
        that.with_body(
            BaseDynamicBody {
                position: that.body().position.sub_spec(
                    correction.mul_spec(that.body().inverse_mass),
                ),
                ..that.body()
            },
        ),
    )
}

/// The impulse that a contact exerts, if the bodies do not separate.
pub fn get_impulse(contact: &Contact, this_body: &BaseDynamicBody, that_body: &BaseDynamicBody) -> (r:
    Option<Vec2D>)
    ensures
        r == get_impulse_spec(*contact, *this_body, *that_body),
        r is None <==> separating_speed(*contact, *this_body, *that_body).raw > 0,
{
    let relative_velocity: Vec2D = that_body.velocity.sub(&this_body.velocity);
    let relative_velocity_dot_normal: Fixed = relative_velocity.dot_product(&contact.normal);
    if relative_velocity_dot_normal.raw > 0 {
        return None;
    }
    let coefficient_of_restitution: Fixed = this_body.coefficient_of_restitution.min(
        that_body.coefficient_of_restitution,
    );
    let impulse_amount: Fixed = Fixed::one().add(coefficient_of_restitution).mul(
        relative_velocity_dot_normal,
    ).div(this_body.inverse_mass.add(that_body.inverse_mass));
    Some(contact.normal.mul(impulse_amount))
}

/// The correction that a contact calls for.
pub fn get_correction(contact: &Contact, this_body: &BaseDynamicBody, that_body: &BaseDynamicBody) -> (r:
    Vec2D)
    ensures
        r == get_correction_spec(*contact, *this_body, *that_body),
{
    let correction_amount: Fixed = contact.distance.add(Fixed::from_raw(CORRECTION_THRESHOLD)).min(
        Fixed::zero(),
    ).mul(Fixed::from_raw(CORRECTION_PERCENTAGE)).div(
        this_body.inverse_mass.add(that_body.inverse_mass),
    );
    contact.normal.mul(correction_amount)
}

/// Resolves the contact of a static body with a moving one, in one pass:
/// the impulse on the velocity, then the correction of the position.
pub fn handle_collision_static(this: &StaticBody, that: &mut DynamicBody)
    ensures
        *final(that) == handle_collision_static_spec(*this, *old(that)),
{
    let contact: Contact = generate_contact_static(this, that);
    if contact.distance.raw >= 0 {
        return ;
    }
    let this_body: BaseDynamicBody = BaseDynamicBody {
        position: zero(),
        velocity: zero(),
        coefficient_of_restitution: Fixed::one(),
        inverse_mass: Fixed::zero(),
    };
    let that_body = that.as_mut();
    if let Some(impulse) = get_impulse(&contact, &this_body, that_body) {
        let change: Vec2D = impulse.mul(that_body.inverse_mass);
        that_body.velocity.sub_assign(&change);
    }
    let correction: Vec2D = get_correction(&contact, &this_body, that_body);
    let change: Vec2D = correction.mul(that_body.inverse_mass);
    that_body.position.sub_assign(&change);
}

/// Applies the impulse of a stored contact to the velocities of its two
/// bodies, as they move now. Positions are left alone.
pub fn handle_collision(this: &mut DynamicBody, that: &mut DynamicBody, contact: &Contact)
    ensures
        (*final(this), *final(that)) == handle_collision_spec(*old(this), *old(that), *contact),
{
    if let Some(impulse) = get_impulse(contact, this.as_ref(), that.as_ref()) {
        let this_body = this.as_mut();
        let change: Vec2D = impulse.mul(this_body.inverse_mass);
        this_body.velocity.add_assign(&change);
        let that_body = that.as_mut();
        let change: Vec2D = impulse.mul(that_body.inverse_mass);
        that_body.velocity.sub_assign(&change);
    }
}

/// Applies the correction of a stored contact to the positions of its two
/// bodies. Velocities are left alone.
pub fn correct_positions(this: &mut DynamicBody, that: &mut DynamicBody, contact: &Contact)
    ensures
        (*final(this), *final(that)) == correct_positions_spec(*old(this), *old(that), *contact),
{
    let correction: Vec2D = get_correction(contact, this.as_ref(), that.as_ref());
    let this_body = this.as_mut();
    let change: Vec2D = correction.mul(this_body.inverse_mass);
    this_body.position.add_assign(&change);
    let that_body = that.as_mut();
    let change: Vec2D = correction.mul(that_body.inverse_mass);
    that_body.position.sub_assign(&change);
}

/// The greatest speed along either axis, in raw units, for which the law of
/// the elastic impulse is stated: below it nothing saturates.
pub const ELASTIC_SPEED_LIMIT: i64 = 0x1000_0000_0000_0000;

/// Whether a moving part has a mass of one, is perfectly elastic, and moves
/// at no more than `ELASTIC_SPEED_LIMIT` along either axis.
pub open spec fn is_elastic_unit_mass(body: BaseDynamicBody) -> bool {
    &&& body.inverse_mass.raw == SCALE
    &&& body.coefficient_of_restitution.raw == SCALE
    &&& -ELASTIC_SPEED_LIMIT <= body.velocity.x.raw <= ELASTIC_SPEED_LIMIT
    &&& -ELASTIC_SPEED_LIMIT <= body.velocity.y.raw <= ELASTIC_SPEED_LIMIT
}

/// Twice a number, halved, is the number.
proof fn lemma_double_and_halve(x: Fixed)
    requires
        -0x2000_0000_0000_0000 <= x.raw <= 0x2000_0000_0000_0000,
    ensures
        (Fixed { raw: 2_000_000 }).mul_spec(x).div_spec((Fixed { raw: 2_000_000 })) == x,
{
    let v = x.raw as int;
    let m = magnitude(v);
    assert((2 * SCALE) * v == 2_000_000 * v) by (nonlinear_arith)
        requires
            SCALE == 1_000_000,
    ;
    assert(magnitude(2_000_000 * v) == 2_000_000 * m);
    assert(2_000_000 * m / 1_000_000 == 2 * m) by (nonlinear_arith)
        requires
            0 <= m,
    ;
    let doubled = (Fixed { raw: 2_000_000 }).mul_spec(x);
    assert(doubled.raw == 2 * v);
    assert((2 * v) * SCALE == 2_000_000 * v) by (nonlinear_arith)
        requires
            SCALE == 1_000_000,
    ;
    assert(2_000_000 * m / 2_000_000 == m) by (nonlinear_arith)
        requires
            0 <= m,
    ;
}

/// Two perfectly elastic bodies of mass one that approach each other along
/// a contact whose normal is a unit vector along an axis part, after the
/// impulse, at the speed at which they approached.
pub proof fn lemma_elastic_impulse_turns_the_speed(
    this: DynamicBody,
    that: DynamicBody,
    contact: Contact,
)
    requires
        is_elastic_unit_mass(this.body()),
        is_elastic_unit_mass(that.body()),
        contact.normal == unit_left() || contact.normal == unit_right() || contact.normal
            == unit_up() || contact.normal == unit_down(),
        separating_speed(contact, this.body(), that.body()).raw <= 0,
    ensures
        separating_speed(
            contact,
            handle_collision_spec(this, that, contact).0.body(),
            handle_collision_spec(this, that, contact).1.body(),
        ) == separating_speed(contact, this.body(), that.body()).neg_spec(),
{
    let relative = that.body().velocity.sub_spec(this.body().velocity);
    let speed = separating_speed(contact, this.body(), that.body());
    lemma_mul_by_unit(relative.x);
    lemma_mul_by_unit(relative.y);
    lemma_mul_by_zero(relative.x);
    lemma_mul_by_zero(relative.y);
    lemma_double_and_halve(speed);
    let amount = (Fixed { raw: SCALE }).add_spec(Fixed { raw: SCALE }).mul_spec(speed).div_spec(
        (Fixed { raw: SCALE }).add_spec(Fixed { raw: SCALE }),
    );
    assert(amount == speed);
    lemma_mul_by_unit(amount);
    lemma_mul_by_zero(amount);
    let impulse = contact.normal.mul_spec(amount);
    lemma_mul_by_unit(impulse.x);
    lemma_mul_by_unit(impulse.y);
    let (after_this, after_that) = handle_collision_spec(this, that, contact);
    let after = after_that.body().velocity.sub_spec(after_this.body().velocity);
    lemma_mul_by_unit(after.x);
    lemma_mul_by_unit(after.y);
    lemma_mul_by_zero(after.x);
    lemma_mul_by_zero(after.y);
}

/// Whether, along an axis on which the normal has the component `normal`,
/// a body that went from `before` to `after` did not move the way the
/// normal points.
pub open spec fn not_along(normal: Fixed, before: Fixed, after: Fixed) -> bool {
    &&& normal.raw >= 0 ==> after.raw <= before.raw
    &&& normal.raw <= 0 ==> after.raw >= before.raw
}

/// Whether, along an axis on which the normal has the component `normal`,
/// a body that went from `before` to `after` did not move against the way
/// the normal points.
pub open spec fn not_against(normal: Fixed, before: Fixed, after: Fixed) -> bool {
    &&& normal.raw >= 0 ==> after.raw >= before.raw
    &&& normal.raw <= 0 ==> after.raw <= before.raw
}

/// The amount of a correction is never positive where the inverse masses
/// are not negative.
pub proof fn lemma_correction_amount_is_not_positive(
    contact: Contact,
    this_body: BaseDynamicBody,
    that_body: BaseDynamicBody,
    component: Fixed,
)
    requires
        this_body.inverse_mass.raw >= 0,
        that_body.inverse_mass.raw >= 0,
    ensures
        component.raw >= 0 ==> component.mul_spec(
            contact.distance.add_spec(Fixed { raw: CORRECTION_THRESHOLD }).min_spec(
                Fixed { raw: 0 },
            ).mul_spec(Fixed { raw: CORRECTION_PERCENTAGE }).div_spec(
                this_body.inverse_mass.add_spec(that_body.inverse_mass),
            ),
        ).raw <= 0,
        component.raw <= 0 ==> component.mul_spec(
            contact.distance.add_spec(Fixed { raw: CORRECTION_THRESHOLD }).min_spec(
                Fixed { raw: 0 },
            ).mul_spec(Fixed { raw: CORRECTION_PERCENTAGE }).div_spec(
                this_body.inverse_mass.add_spec(that_body.inverse_mass),
            ),
        ).raw >= 0,
{
    let excess = contact.distance.add_spec(Fixed { raw: CORRECTION_THRESHOLD }).min_spec(
        Fixed { raw: 0 },
    );
    let scaled = excess.mul_spec(Fixed { raw: CORRECTION_PERCENTAGE });
    lemma_mul_sign(excess, Fixed { raw: CORRECTION_PERCENTAGE });
    let masses = this_body.inverse_mass.add_spec(that_body.inverse_mass);
    lemma_div_sign(scaled, masses);
    lemma_mul_sign(component, scaled.div_spec(masses));
}

/// A correction never brings two well-formed bodies closer: along either
/// axis, the first body does not move the way the normal points, and the
/// second does not move against it.
pub proof fn lemma_correction_separates(this: DynamicBody, that: DynamicBody, contact: Contact)
    requires
        this.wf(),
        that.wf(),
    ensures
        not_along(
            contact.normal.x,
            this.body().position.x,
            correct_positions_spec(this, that, contact).0.body().position.x,
        ),
        not_along(
            contact.normal.y,
            this.body().position.y,
            correct_positions_spec(this, that, contact).0.body().position.y,
        ),
        not_against(
            contact.normal.x,
            that.body().position.x,
            correct_positions_spec(this, that, contact).1.body().position.x,
        ),
        not_against(
            contact.normal.y,
            that.body().position.y,
            correct_positions_spec(this, that, contact).1.body().position.y,
        ),
{
    let correction = get_correction_spec(contact, this.body(), that.body());
    lemma_correction_amount_is_not_positive(contact, this.body(), that.body(), contact.normal.x);
    lemma_correction_amount_is_not_positive(contact, this.body(), that.body(), contact.normal.y);
    lemma_mul_sign(correction.x, this.body().inverse_mass);
    lemma_mul_sign(correction.y, this.body().inverse_mass);
    lemma_mul_sign(correction.x, that.body().inverse_mass);
    lemma_mul_sign(correction.y, that.body().inverse_mass);
}

/// An impulse never drives two well-formed bodies toward each other: along
/// either axis, the first body gains no velocity the way the normal points,
/// and the second gains none against it.
pub proof fn lemma_impulse_separates(this: DynamicBody, that: DynamicBody, contact: Contact)
    requires
        this.wf(),
        that.wf(),
    ensures
        not_along(
            contact.normal.x,
            this.body().velocity.x,
            handle_collision_spec(this, that, contact).0.body().velocity.x,
        ),
        not_along(
            contact.normal.y,
            this.body().velocity.y,
            handle_collision_spec(this, that, contact).0.body().velocity.y,
        ),
        not_against(
            contact.normal.x,
            that.body().velocity.x,
            handle_collision_spec(this, that, contact).1.body().velocity.x,
        ),
        not_against(
            contact.normal.y,
            that.body().velocity.y,
            handle_collision_spec(this, that, contact).1.body().velocity.y,
        ),
{
    let speed = separating_speed(contact, this.body(), that.body());
    if speed.raw <= 0 {
        let restitution = this.body().coefficient_of_restitution.min_spec(
            that.body().coefficient_of_restitution,
        );
        let bounce = (Fixed { raw: SCALE }).add_spec(restitution);
        lemma_mul_sign(bounce, speed);
        let masses = this.body().inverse_mass.add_spec(that.body().inverse_mass);
        lemma_div_sign(bounce.mul_spec(speed), masses);
        let amount = bounce.mul_spec(speed).div_spec(masses);
        lemma_mul_sign(contact.normal.x, amount);
        lemma_mul_sign(contact.normal.y, amount);
        let impulse = contact.normal.mul_spec(amount);
        lemma_mul_sign(impulse.x, this.body().inverse_mass);
        lemma_mul_sign(impulse.y, this.body().inverse_mass);
        lemma_mul_sign(impulse.x, that.body().inverse_mass);
        lemma_mul_sign(impulse.y, that.body().inverse_mass);
    }
}

/// The contact with a static body never moves a well-formed body against
/// the normal of the contact, nor adds to its velocity against it.
pub proof fn lemma_static_collision_separates(this: StaticBody, that: DynamicBody)
    requires
        that.wf(),
    ensures
        not_against(
            generate_contact_static_spec(this, that).normal.x,
            that.body().position.x,
            handle_collision_static_spec(this, that).body().position.x,
        ),
        not_against(
            generate_contact_static_spec(this, that).normal.y,
            that.body().position.y,
            handle_collision_static_spec(this, that).body().position.y,
        ),
        not_against(
            generate_contact_static_spec(this, that).normal.x,
            that.body().velocity.x,
            handle_collision_static_spec(this, that).body().velocity.x,
        ),
        not_against(
            generate_contact_static_spec(this, that).normal.y,
            that.body().velocity.y,
            handle_collision_static_spec(this, that).body().velocity.y,
        ),
{
    let contact = generate_contact_static_spec(this, that);
    if contact.distance.raw < 0 {
        let body = that.body();
        let speed = separating_speed(contact, immovable_spec(), body);
        if speed.raw <= 0 {
            let restitution = immovable_spec().coefficient_of_restitution.min_spec(
                body.coefficient_of_restitution,
            );
            let bounce = (Fixed { raw: SCALE }).add_spec(restitution);
            lemma_mul_sign(bounce, speed);
            let masses = immovable_spec().inverse_mass.add_spec(body.inverse_mass);
            lemma_div_sign(bounce.mul_spec(speed), masses);
            let amount = bounce.mul_spec(speed).div_spec(masses);
            lemma_mul_sign(contact.normal.x, amount);
            lemma_mul_sign(contact.normal.y, amount);
            let impulse = contact.normal.mul_spec(amount);
            lemma_mul_sign(impulse.x, body.inverse_mass);
            lemma_mul_sign(impulse.y, body.inverse_mass);
        }
        let velocity = match get_impulse_spec(contact, immovable_spec(), body) {
            Some(impulse) => body.velocity.sub_spec(impulse.mul_spec(body.inverse_mass)),
            None => body.velocity,
        };
        let moved = BaseDynamicBody { velocity, ..body };
        let correction = get_correction_spec(contact, immovable_spec(), moved);
        lemma_correction_amount_is_not_positive(contact, immovable_spec(), moved, contact.normal.x);
        lemma_correction_amount_is_not_positive(contact, immovable_spec(), moved, contact.normal.y);
        lemma_mul_sign(correction.x, body.inverse_mass);
        lemma_mul_sign(correction.y, body.inverse_mass);
    }
}

} // verus!
