//! Worlds filled with bodies drawn at random inside four borders.

use super::World;
use crate::body::{BaseDynamicBody, Circle, DynamicBody, Line, Rectangle, StaticBody};
use crate::fixed::{Fixed, SCALE};
use crate::vec2::{unit_down, unit_left, unit_right, unit_up, zero, Vec2D};
use vstd::prelude::*;

verus! {

/// The greatest speed, in raw units, that a drawn body has along either
/// axis: five units.
pub const MAX_INITIAL_VELOCITY: i64 = 5_000_000;

/// The size of a drawn body of mass one, in raw units: ten units.
pub const SIZE_TO_MASS_RATIO: i64 = 10_000_000;

/// The smallest mass that is drawn, in raw units.
pub const MINIMUM_MASS: i64 = 1;

/// The greatest magnitude, in raw units, of the bounds between which a
/// number can be drawn.
pub const DRAW_LIMIT: i64 = 0x10_0000_0000_0000;

/// Whether a number can be drawn between `low` and `high`.
pub open spec fn drawable(low: Fixed, high: Fixed) -> bool {
    -DRAW_LIMIT <= low.raw <= high.raw <= DRAW_LIMIT
}

/// Draws a number of raw units with `macroquad::rand::gen_range`, which
/// scales the next output of its generator from the unit interval to the
/// span between the bounds, in double precision, and drops the fraction.
/// Bounds of at most `DRAW_LIMIT` in magnitude and their difference are
/// exact in double precision, so that the draw lies between them, either
/// bound included. Nothing is claimed of other bounds.
#[verifier::external_body]
fn draw(low: i64, high: i64) -> (r: i64)
    ensures
        -DRAW_LIMIT <= low <= high <= DRAW_LIMIT ==> low <= r <= high,
{
    macroquad::rand::gen_range(low, high)
}

/// A number drawn between `low` and `high`, where one can be.
pub fn random_between(low: Fixed, high: Fixed) -> (r: Fixed)
    ensures
        drawable(low, high) ==> low.raw <= r.raw <= high.raw,
{
    Fixed { raw: draw(low.raw, high.raw) }
}

/// The four borders of a world of the given size: a line each at the top,
/// the right, the bottom and the left, `offset` inside the edge, with its
/// normal pointing inward.
pub open spec fn borders_spec(width: Fixed, height: Fixed, offset: Fixed) -> Seq<StaticBody> {
    seq![
        StaticBody::Line(Line { normal: unit_down(), origin_distance: offset.neg_spec() }),
        StaticBody::Line(
            Line {
                normal: unit_left(),
                origin_distance: width.sub_spec(Fixed { raw: SCALE }).sub_spec(offset),
            },
        ),
        StaticBody::Line(
            Line {
                normal: unit_up(),
                origin_distance: height.sub_spec(Fixed { raw: SCALE }).sub_spec(offset),
            },
        ),
        StaticBody::Line(Line { normal: unit_right(), origin_distance: offset.neg_spec() }),
    ]
}

/// The moving part with the given state and the inverse of the given mass.
pub open spec fn base_dynamic_body_of(
    position: Vec2D,
    velocity: Vec2D,
    coefficient_of_restitution: Fixed,
    mass: Fixed,
) -> BaseDynamicBody {
    BaseDynamicBody {
        position,
        velocity,
        coefficient_of_restitution,
        inverse_mass: Fixed { raw: SCALE }.div_spec(mass),
    }
}

/// The circle whose radius is `SIZE_TO_MASS_RATIO` times its mass.
pub open spec fn circle_of(body: BaseDynamicBody) -> Circle {
    Circle { body, radius: Fixed { raw: SIZE_TO_MASS_RATIO }.div_spec(body.inverse_mass) }
}

/// The rectangle whose half width and half height add up to
/// `SIZE_TO_MASS_RATIO` times its mass, the half width being the share
/// `aspect_ratio` of that.
pub open spec fn rectangle_of(body: BaseDynamicBody, aspect_ratio: Fixed) -> Rectangle {
    Rectangle {
        body,
        half_width: aspect_ratio.mul_spec(Fixed { raw: SIZE_TO_MASS_RATIO }).div_spec(
            body.inverse_mass,
        ),
        half_height: Fixed { raw: SCALE }.sub_spec(aspect_ratio).mul_spec(
            Fixed { raw: SIZE_TO_MASS_RATIO },
        ).div_spec(body.inverse_mass),
    }
}

/// Whether a position lies `offset` or more inside a world of the given
/// size, if a position can be drawn there at all.
pub open spec fn placed_within(position: Vec2D, width: Fixed, height: Fixed, offset: Fixed) -> bool {
    &&& drawable(offset, width.sub_spec(offset)) ==> offset.raw <= position.x.raw
        <= width.sub_spec(offset).raw
    &&& drawable(offset, height.sub_spec(offset)) ==> offset.raw <= position.y.raw
        <= height.sub_spec(offset).raw
}

/// What holds of every moving part that is drawn: it is well formed, its
/// mass lies between `MINIMUM_MASS` and one unit more, its speed along
/// either axis is at most `MAX_INITIAL_VELOCITY`, and it is placed within
/// the borders.
pub open spec fn is_drawn_body(body: BaseDynamicBody, width: Fixed, height: Fixed, offset: Fixed) -> bool {
    &&& body.wf()
    &&& 999_999 <= body.inverse_mass.raw <= 1_000_000_000_000
    &&& -MAX_INITIAL_VELOCITY <= body.velocity.x.raw <= MAX_INITIAL_VELOCITY
    &&& -MAX_INITIAL_VELOCITY <= body.velocity.y.raw <= MAX_INITIAL_VELOCITY
    &&& placed_within(body.position, width, height, offset)
}

/// What holds of every body that is drawn: it is well formed, its moving
/// part is as `is_drawn_body` says, and its size goes by its mass: a circle
/// is `circle_of` its moving part, and a rectangle is `rectangle_of` its
/// moving part and some share between a quarter and three quarters.
pub open spec fn is_drawn(body: DynamicBody, width: Fixed, height: Fixed, offset: Fixed) -> bool {
    &&& body.wf()
    &&& is_drawn_body(body.body(), width, height, offset)
    &&& match body {
        DynamicBody::Circle(circle) => circle == circle_of(circle.body),
        DynamicBody::Rectangle(rectangle) => exists|aspect_ratio: Fixed|
            250_000 <= aspect_ratio.raw <= 750_000 && rectangle == #[trigger] rectangle_of(
                rectangle.body,
                aspect_ratio,
            ),
    }
}

/// A quotient of a non-negative number by a positive one lies between two
/// bounds when the number lies between their products with the divisor.
pub proof fn lemma_quotient_between(n: int, d: int, low: int, high: int)
    by (nonlinear_arith)
    requires
        d > 0,
        low * d <= n,
        n < (high + 1) * d,
    ensures
        low <= n / d <= high,
{
}

/// The moving part with the given state and the inverse of the given mass.
pub fn base_dynamic_body_with(
    position: Vec2D,
    velocity: Vec2D,
    coefficient_of_restitution: Fixed,
    mass: Fixed,
) -> (r: BaseDynamicBody)
    ensures
        r == base_dynamic_body_of(position, velocity, coefficient_of_restitution, mass),
        MINIMUM_MASS <= mass.raw <= SCALE + MINIMUM_MASS ==> 999_999 <= r.inverse_mass.raw
            <= 1_000_000_000_000,
{
    proof {
        if MINIMUM_MASS <= mass.raw <= SCALE + MINIMUM_MASS {
            lemma_quotient_between(
                1_000_000_000_000,
                mass.raw as int,
                999_999,
                1_000_000_000_000,
            );
        }
    }
    BaseDynamicBody {
        position,
        velocity,
        coefficient_of_restitution,
        inverse_mass: Fixed::one().div(mass),
    }
}

/// The circle whose radius is `SIZE_TO_MASS_RATIO` times its mass.
pub fn circle_around(body: BaseDynamicBody) -> (r: Circle)
    ensures
        r == circle_of(body),
        999_999 <= body.inverse_mass.raw <= 1_000_000_000_000 ==> r.radius.raw > 0,
{
    proof {
        if 999_999 <= body.inverse_mass.raw <= 1_000_000_000_000 {
            lemma_quotient_between(
                10_000_000_000_000,
                body.inverse_mass.raw as int,
                10,
                10_000_000_000_000,
            );
        }
    }
    Circle { body, radius: Fixed::from_raw(SIZE_TO_MASS_RATIO).div(body.inverse_mass) }
}

/// The rectangle whose half width and half height add up to
/// `SIZE_TO_MASS_RATIO` times its mass, the half width being the share
/// `aspect_ratio` of that.
pub fn rectangle_around(body: BaseDynamicBody, aspect_ratio: Fixed) -> (r: Rectangle)
    ensures
        r == rectangle_of(body, aspect_ratio),
        999_999 <= body.inverse_mass.raw <= 1_000_000_000_000 && 250_000 <= aspect_ratio.raw
            <= 750_000 ==> r.half_width.raw > 0 && r.half_height.raw > 0,
{
    let ratio: Fixed = Fixed::from_raw(SIZE_TO_MASS_RATIO);
    let width_share: Fixed = aspect_ratio.mul(ratio);
    let height_share: Fixed = Fixed::one().sub(aspect_ratio).mul(ratio);
    proof {
        if 999_999 <= body.inverse_mass.raw <= 1_000_000_000_000 && 250_000 <= aspect_ratio.raw
            <= 750_000 {
            let a = aspect_ratio.raw as int;
            let b = SCALE - a;
            assert(a * 10_000_000 / 1_000_000 == 10 * a) by (nonlinear_arith);
            assert(b * 10_000_000 / 1_000_000 == 10 * b) by (nonlinear_arith);
            assert(width_share.raw == 10 * a);
            assert(height_share.raw == 10 * b);
            assert(width_share.raw * SCALE == 10_000_000 * a) by (nonlinear_arith)
                requires
                    width_share.raw == 10 * a,
                    SCALE == 1_000_000,
            ;
            assert(height_share.raw * SCALE == 10_000_000 * b) by (nonlinear_arith)
                requires
                    height_share.raw == 10 * b,
                    SCALE == 1_000_000,
            ;
            lemma_quotient_between(
                10_000_000 * a,
                body.inverse_mass.raw as int,
                2,
                10_000_000_000_000,
            );
            lemma_quotient_between(
                10_000_000 * b,
                body.inverse_mass.raw as int,
                2,
                10_000_000_000_000,
            );
        }
    }
    Rectangle {
        body,
        half_width: width_share.div(body.inverse_mass),
        half_height: height_share.div(body.inverse_mass),
    }
}

/// A position drawn `offset` or more inside a world of the given size.
pub fn random_position(width: Fixed, height: Fixed, offset: Fixed) -> (r: Vec2D)
    ensures
        placed_within(r, width, height, offset),
{
    Vec2D {
        x: random_between(offset, width.sub(offset)),
        y: random_between(offset, height.sub(offset)),
    }
}

/// A velocity drawn with a speed of at most `MAX_INITIAL_VELOCITY` along
/// either axis.
pub fn random_velocity() -> (r: Vec2D)
    ensures
        -MAX_INITIAL_VELOCITY <= r.x.raw <= MAX_INITIAL_VELOCITY,
        -MAX_INITIAL_VELOCITY <= r.y.raw <= MAX_INITIAL_VELOCITY,
{
    let limit: Fixed = Fixed::from_raw(MAX_INITIAL_VELOCITY);
    Vec2D { x: random_between(limit.neg(), limit), y: random_between(limit.neg(), limit) }
}

/// A moving part drawn within the borders.
pub fn random_base_dynamic_body(width: Fixed, height: Fixed, offset: Fixed) -> (r: BaseDynamicBody)
    ensures
        is_drawn_body(r, width, height, offset),
{
    let position: Vec2D = random_position(width, height, offset);
    let velocity: Vec2D = random_velocity();
    let coefficient_of_restitution: Fixed = random_between(Fixed::zero(), Fixed::one());
    let mass: Fixed = random_between(Fixed::zero(), Fixed::one()).add(
        Fixed::from_raw(MINIMUM_MASS),
    );
    base_dynamic_body_with(position, velocity, coefficient_of_restitution, mass)
}

/// A circle drawn within the borders.
pub fn random_circle(width: Fixed, height: Fixed, offset: Fixed) -> (r: Circle)
    ensures
        r.wf(),
        is_drawn_body(r.body, width, height, offset),
        is_drawn(DynamicBody::Circle(r), width, height, offset),
{
    let body: BaseDynamicBody = random_base_dynamic_body(width, height, offset);
    circle_around(body)
}

/// A rectangle drawn within the borders, between a third as wide as tall
/// and three times as wide as tall.
pub fn random_rectangle(width: Fixed, height: Fixed, offset: Fixed) -> (r: Rectangle)
    ensures
        r.wf(),
        is_drawn_body(r.body, width, height, offset),
        is_drawn(DynamicBody::Rectangle(r), width, height, offset),
{
    let body: BaseDynamicBody = random_base_dynamic_body(width, height, offset);
    let aspect_ratio: Fixed = random_between(Fixed::from_raw(250_000), Fixed::from_raw(750_000));
    rectangle_around(body, aspect_ratio)
}

/// The four borders of a world of the given size.
pub fn borders(width: Fixed, height: Fixed, offset: Fixed) -> (r: Vec<StaticBody>)
    ensures
        r@ == borders_spec(width, height, offset),
{
    let top_border: Line = Line::new(unit_down(), offset.neg());
    let right_border: Line = Line::new(unit_left(), width.sub(Fixed::one()).sub(offset));
    let bottom_border: Line = Line::new(unit_up(), height.sub(Fixed::one()).sub(offset));
    let left_border: Line = Line::new(unit_right(), offset.neg());
    let mut static_bodies: Vec<StaticBody> = Vec::new();
    static_bodies.push(StaticBody::Line(top_border));
    static_bodies.push(StaticBody::Line(right_border));
    static_bodies.push(StaticBody::Line(bottom_border));
    static_bodies.push(StaticBody::Line(left_border));
    assert(static_bodies@ =~= borders_spec(width, height, offset));
    static_bodies
}

/// The greatest speed, in raw units, that a body of a populated world has
/// along either axis: half a unit.
pub const MAX_POPULATED_VELOCITY: i64 = 500_000;

/// The gravity of a populated world, in raw units: a hundred units,
/// downward.
pub const POPULATED_GRAVITY: i64 = 100_000_000;

/// The circle with the given state whose radius is `SIZE_TO_MASS_RATIO`
/// times the given mass and whose inverse mass is the inverse of it.
pub open spec fn circle_of_mass(
    position: Vec2D,
    velocity: Vec2D,
    coefficient_of_restitution: Fixed,
    mass: Fixed,
) -> Circle {
    Circle {
        body: base_dynamic_body_of(position, velocity, coefficient_of_restitution, mass),
        radius: Fixed { raw: SIZE_TO_MASS_RATIO }.mul_spec(mass),
    }
}

/// What holds of every circle of a populated world: it is well formed, its
/// mass lies between `MINIMUM_MASS` and one unit more, its speed along
/// either axis is at most `MAX_POPULATED_VELOCITY`, and it is placed within
/// the borders.
pub open spec fn is_populated_circle(circle: Circle, width: Fixed, height: Fixed, offset: Fixed) -> bool {
    &&& circle.wf()
    &&& 999_999 <= circle.body.inverse_mass.raw <= 1_000_000_000_000
    &&& -MAX_POPULATED_VELOCITY <= circle.body.velocity.x.raw <= MAX_POPULATED_VELOCITY
    &&& -MAX_POPULATED_VELOCITY <= circle.body.velocity.y.raw <= MAX_POPULATED_VELOCITY
    &&& placed_within(circle.body.position, width, height, offset)
}

/// Whether a body is a circle of which `is_populated_circle` holds.
pub open spec fn is_populated_body(body: DynamicBody, width: Fixed, height: Fixed, offset: Fixed) -> bool {
    match body {
        DynamicBody::Circle(circle) => is_populated_circle(circle, width, height, offset),
        DynamicBody::Rectangle(_) => false,
    }
}

/// The circle with the given state whose radius is `SIZE_TO_MASS_RATIO`
/// times the given mass and whose inverse mass is the inverse of it.
pub fn circle_with_mass(
    position: Vec2D,
    velocity: Vec2D,
    coefficient_of_restitution: Fixed,
    mass: Fixed,
) -> (r: Circle)
    ensures
        r == circle_of_mass(position, velocity, coefficient_of_restitution, mass),
        MINIMUM_MASS <= mass.raw <= SCALE + MINIMUM_MASS ==> r.radius.raw == 10 * mass.raw
            && 999_999 <= r.body.inverse_mass.raw <= 1_000_000_000_000,
{
    proof {
        if MINIMUM_MASS <= mass.raw <= SCALE + MINIMUM_MASS {
            let m = mass.raw as int;
            assert(10_000_000 * m / 1_000_000 == 10 * m) by (nonlinear_arith);
        }
    }
    Circle {
        body: base_dynamic_body_with(position, velocity, coefficient_of_restitution, mass),
        radius: Fixed::from_raw(SIZE_TO_MASS_RATIO).mul(mass),
    }
}

/// A circle drawn for a populated world.
pub fn random_populated_circle(width: Fixed, height: Fixed, offset: Fixed) -> (r: Circle)
    ensures
        is_populated_circle(r, width, height, offset),
{
    let position: Vec2D = random_position(width, height, offset);
    let limit: Fixed = Fixed::from_raw(MAX_POPULATED_VELOCITY);
    let velocity: Vec2D = Vec2D {
        x: random_between(limit.neg(), limit),
        y: random_between(limit.neg(), limit),
    };
    let coefficient_of_restitution: Fixed = random_between(Fixed::zero(), Fixed::one());
    let mass: Fixed = random_between(Fixed::zero(), Fixed::one()).add(
        Fixed::from_raw(MINIMUM_MASS),
    );
    circle_with_mass(position, velocity, coefficient_of_restitution, mass)
}

impl World {
    /// A world of the given size without gravity, with four borders
    /// `offset` inside its edges, and with `num_bodies` circles followed by
    /// as many rectangles, each drawn at random within the borders.
    pub fn generate(width: Fixed, height: Fixed, offset: Fixed, num_bodies: u32) -> (r: World)
        ensures
            r@.static_bodies == borders_spec(width, height, offset),
            r@.gravity == zero(),
            r@.dynamic_bodies.len() == 2 * num_bodies,
            forall|k: int|
                0 <= k < num_bodies ==> (#[trigger] r@.dynamic_bodies[k]) is Circle,
            forall|k: int|
                num_bodies <= k < 2 * num_bodies ==> (#[trigger] r@.dynamic_bodies[k]) is Rectangle,
            forall|k: int|
                0 <= k < 2 * num_bodies ==> is_drawn(
                    #[trigger] r@.dynamic_bodies[k],
                    width,
                    height,
                    offset,
                ),
    {
        let static_bodies: Vec<StaticBody> = borders(width, height, offset);
        let mut dynamic_bodies: Vec<DynamicBody> = Vec::new();
        let mut k: u32 = 0;
        while k < num_bodies
            invariant
                k <= num_bodies,
                dynamic_bodies@.len() == k,
                forall|j: int| 0 <= j < k ==> (#[trigger] dynamic_bodies@[j]) is Circle,
                forall|j: int|
                    0 <= j < k ==> is_drawn(#[trigger] dynamic_bodies@[j], width, height, offset),
            decreases num_bodies - k,
        {
            dynamic_bodies.push(DynamicBody::Circle(random_circle(width, height, offset)));
            k = k + 1;
        }
        k = 0;
        while k < num_bodies
            invariant
                k <= num_bodies,
                dynamic_bodies@.len() == num_bodies + k,
                forall|j: int| 0 <= j < num_bodies ==> (#[trigger] dynamic_bodies@[j]) is Circle,
                forall|j: int|
                    num_bodies <= j < num_bodies + k ==> (#[trigger] dynamic_bodies@[j]) is Rectangle,
                forall|j: int|
                    0 <= j < num_bodies + k ==> is_drawn(
                        #[trigger] dynamic_bodies@[j],
                        width,
                        height,
                        offset,
                    ),
            decreases num_bodies - k,
        {
            dynamic_bodies.push(DynamicBody::Rectangle(random_rectangle(width, height, offset)));
            k = k + 1;
        }
        World { static_bodies, dynamic_bodies, gravity: zero() }
    }

    /// A world of the given size under a gravity of `POPULATED_GRAVITY`,
    /// with four borders `offset` inside its edges and with `num_bodies`
    /// circles, each drawn at random within the borders.
    pub fn new_populated(width: Fixed, height: Fixed, offset: Fixed, num_bodies: u32) -> (r: World)
        ensures
            r@.static_bodies == borders_spec(width, height, offset),
            r@.gravity == (Vec2D { x: Fixed { raw: 0 }, y: Fixed { raw: POPULATED_GRAVITY } }),
            r@.dynamic_bodies.len() == num_bodies,
            forall|k: int|
                0 <= k < num_bodies ==> is_populated_body(
                    #[trigger] r@.dynamic_bodies[k],
                    width,
                    height,
                    offset,
                ),
    {
        let static_bodies: Vec<StaticBody> = borders(width, height, offset);
        let mut dynamic_bodies: Vec<DynamicBody> = Vec::new();
        let mut k: u32 = 0;
        while k < num_bodies
            invariant
                k <= num_bodies,
                dynamic_bodies@.len() == k,
                forall|j: int|
                    0 <= j < k ==> is_populated_body(
                        #[trigger] dynamic_bodies@[j],
                        width,
                        height,
                        offset,
                    ),
            decreases num_bodies - k,
        {
            dynamic_bodies.push(
                DynamicBody::Circle(random_populated_circle(width, height, offset)),
            );
            k = k + 1;
        }
        World {
            static_bodies,
            dynamic_bodies,
            gravity: Vec2D { x: Fixed::zero(), y: Fixed::from_raw(POPULATED_GRAVITY) },
        }
    }
}

} // verus!
