use physics_engine::body::{BaseDynamicBody, DynamicBody, Line, StaticBody};
use physics_engine::fixed::Fixed;
use physics_engine::simulation::world::generation::{
    base_dynamic_body_with, borders, circle_around, circle_with_mass, random_between,
    random_position, random_velocity, rectangle_around, MAX_INITIAL_VELOCITY,
    MAX_POPULATED_VELOCITY,
};
use physics_engine::simulation::world::World;
use physics_engine::vec2::{unit_down, unit_left, unit_right, unit_up, zero, Vec2D};

fn raw(value: i64) -> Fixed {
    Fixed::from_raw(value)
}

fn vector(x: i64, y: i64) -> Vec2D {
    Vec2D { x: Fixed::from_int(x), y: Fixed::from_int(y) }
}

fn expected_borders() -> Vec<StaticBody> {
    vec![
        StaticBody::Line(Line { normal: unit_down(), origin_distance: Fixed::from_int(-10) }),
        StaticBody::Line(Line { normal: unit_left(), origin_distance: Fixed::from_int(1909) }),
        StaticBody::Line(Line { normal: unit_up(), origin_distance: Fixed::from_int(1069) }),
        StaticBody::Line(Line { normal: unit_right(), origin_distance: Fixed::from_int(-10) }),
    ]
}

#[test]
fn test_borders() {
    assert_eq!(
        borders(Fixed::from_int(1920), Fixed::from_int(1080), Fixed::from_int(10)),
        expected_borders()
    );
}

#[test]
fn test_base_dynamic_body_with_inverts_the_mass() {
    let body = base_dynamic_body_with(vector(1, 2), vector(3, 4), raw(250_000), raw(500_000));
    assert_eq!(
        body,
        BaseDynamicBody {
            position: vector(1, 2),
            velocity: vector(3, 4),
            coefficient_of_restitution: raw(250_000),
            inverse_mass: Fixed::from_int(2),
        }
    );
    let lightest = base_dynamic_body_with(zero(), zero(), Fixed::zero(), raw(1));
    assert_eq!(lightest.inverse_mass, Fixed::from_int(1_000_000));
    let heaviest = base_dynamic_body_with(zero(), zero(), Fixed::zero(), raw(1_000_001));
    assert_eq!(heaviest.inverse_mass, raw(999_999));
}

#[test]
fn test_circle_around_sizes_by_mass() {
    let body = base_dynamic_body_with(zero(), zero(), Fixed::zero(), raw(500_000));
    assert_eq!(circle_around(body).radius, Fixed::from_int(5));
    assert_eq!(circle_around(body).body, body);
    let lightest = base_dynamic_body_with(zero(), zero(), Fixed::zero(), raw(1));
    assert_eq!(circle_around(lightest).radius, raw(10));
}

#[test]
fn test_rectangle_around_sizes_by_mass_and_aspect() {
    let body = base_dynamic_body_with(zero(), zero(), Fixed::zero(), raw(500_000));
    let rectangle = rectangle_around(body, raw(250_000));
    assert_eq!(rectangle.half_width, raw(1_250_000));
    assert_eq!(rectangle.half_height, raw(3_750_000));
    assert_eq!(rectangle.body, body);
    let lightest = base_dynamic_body_with(zero(), zero(), Fixed::zero(), raw(1));
    let rectangle = rectangle_around(lightest, raw(750_000));
    assert_eq!(rectangle.half_width, raw(7));
    assert_eq!(rectangle.half_height, raw(2));
}

#[test]
fn test_circle_with_mass_sizes_by_mass() {
    let circle = circle_with_mass(vector(1, 2), vector(3, 4), raw(250_000), raw(500_000));
    assert_eq!(circle.radius, Fixed::from_int(5));
    assert_eq!(circle.body.inverse_mass, Fixed::from_int(2));
    assert_eq!(circle.body.position, vector(1, 2));
}

#[test]
fn test_random_between_respects_its_bounds() {
    let mut seen_low_half = false;
    let mut seen_high_half = false;
    for _ in 0..1000 {
        let drawn = random_between(raw(-5_000_000), raw(5_000_000));
        assert!(-5_000_000 <= drawn.raw && drawn.raw <= 5_000_000);
        if drawn.raw < 0 {
            seen_low_half = true;
        } else {
            seen_high_half = true;
        }
    }
    assert!(seen_low_half && seen_high_half);
    assert_eq!(random_between(raw(7), raw(7)), raw(7));
}

#[test]
fn test_random_position_and_velocity_respect_their_bounds() {
    for _ in 0..200 {
        let position = random_position(Fixed::from_int(1920), Fixed::from_int(1080), Fixed::from_int(10));
        assert!(Fixed::from_int(10) <= position.x && position.x <= Fixed::from_int(1910));
        assert!(Fixed::from_int(10) <= position.y && position.y <= Fixed::from_int(1070));
        let velocity = random_velocity();
        assert!(velocity.x.abs().raw <= MAX_INITIAL_VELOCITY);
        assert!(velocity.y.abs().raw <= MAX_INITIAL_VELOCITY);
    }
}

#[test]
fn test_generate_fills_the_world_within_its_borders() {
    let world = World::generate(Fixed::from_int(1920), Fixed::from_int(1080), Fixed::from_int(10), 50);
    assert_eq!(world.static_bodies, expected_borders());
    assert_eq!(world.gravity, zero());
    assert_eq!(world.dynamic_bodies.len(), 100);
    for (index, body) in world.dynamic_bodies.iter().enumerate() {
        match body {
            DynamicBody::Circle(circle) => {
                assert!(index < 50);
                assert!(circle.radius.raw > 0);
            }
            DynamicBody::Rectangle(rectangle) => {
                assert!(index >= 50);
                assert!(rectangle.half_width.raw > 0);
                assert!(rectangle.half_height.raw > 0);
            }
        }
        let moving = body.as_ref();
        assert!(999_999 <= moving.inverse_mass.raw && moving.inverse_mass.raw <= 1_000_000_000_000);
        assert!(0 <= moving.coefficient_of_restitution.raw);
        assert!(moving.coefficient_of_restitution.raw <= 1_000_000);
        assert!(moving.velocity.x.abs().raw <= MAX_INITIAL_VELOCITY);
        assert!(moving.velocity.y.abs().raw <= MAX_INITIAL_VELOCITY);
        assert!(Fixed::from_int(10) <= moving.position.x && moving.position.x <= Fixed::from_int(1910));
        assert!(Fixed::from_int(10) <= moving.position.y && moving.position.y <= Fixed::from_int(1070));
    }
}

#[test]
fn test_generate_draws_different_bodies() {
    let world = World::generate(Fixed::from_int(1920), Fixed::from_int(1080), Fixed::from_int(10), 50);
    let first = world.dynamic_bodies[0].as_ref().position;
    assert!(world.dynamic_bodies.iter().any(|body| body.as_ref().position != first));
    assert!(world
        .dynamic_bodies
        .iter()
        .any(|body| body.as_ref().position.x != Fixed::from_int(10)));
}

#[test]
fn test_generate_without_bodies_has_only_borders() {
    let world = World::generate(Fixed::from_int(1920), Fixed::from_int(1080), Fixed::from_int(10), 0);
    assert_eq!(world.static_bodies.len(), 4);
    assert_eq!(world.dynamic_bodies.len(), 0);
}

#[test]
fn test_new_populated_fills_the_world_with_circles() {
    let world = World::new_populated(Fixed::from_int(800), Fixed::from_int(600), Fixed::from_int(10), 30);
    assert_eq!(world.gravity, vector(0, 100));
    assert_eq!(world.static_bodies.len(), 4);
    assert_eq!(
        world.static_bodies[1],
        StaticBody::Line(Line { normal: unit_left(), origin_distance: Fixed::from_int(789) })
    );
    assert_eq!(world.dynamic_bodies.len(), 30);
    for body in world.dynamic_bodies.iter() {
        match body {
            DynamicBody::Circle(circle) => {
                assert!(circle.radius.raw >= 10);
                assert!(circle.radius.raw <= 10_000_010);
                assert!(circle.body.velocity.x.abs().raw <= MAX_POPULATED_VELOCITY);
                assert!(circle.body.velocity.y.abs().raw <= MAX_POPULATED_VELOCITY);
                assert!(Fixed::from_int(10) <= circle.body.position.x);
                assert!(circle.body.position.x <= Fixed::from_int(790));
            }
            DynamicBody::Rectangle(_) => panic!("a populated world holds circles only"),
        }
    }
}

#[test]
fn test_a_generated_world_can_be_stepped() {
    let mut world = World::generate(Fixed::from_int(400), Fixed::from_int(300), Fixed::from_int(10), 40);
    world.gravity = vector(0, 100);
    for _ in 0..20 {
        world.tick(raw(10_000));
    }
    assert_eq!(world.dynamic_bodies.len(), 80);
    assert_eq!(world.static_bodies.len(), 4);
}
