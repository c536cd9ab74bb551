use physics_engine::body::{BaseDynamicBody, Body, Circle, DynamicBody, Line, Rectangle, StaticBody};
use physics_engine::fixed::Fixed;
use physics_engine::simulation::collisions::{
    circle_circle, circle_rectangle, fast_collision_check, generate_contact_dynamic,
    generate_contact_static, line_circle, line_rectangle, rectangle_rectangle, Contact,
};
use physics_engine::vec2::{unit_down, unit_left, unit_right, unit_up, zero, Vec2D};

fn raw(value: i64) -> Fixed {
    Fixed::from_raw(value)
}

fn vector(x: i64, y: i64) -> Vec2D {
    Vec2D { x: Fixed::from_int(x), y: Fixed::from_int(y) }
}

fn body_at(position: Vec2D) -> BaseDynamicBody {
    BaseDynamicBody {
        position,
        velocity: zero(),
        coefficient_of_restitution: Fixed::zero(),
        inverse_mass: Fixed::one(),
    }
}

fn circle(x: i64, y: i64, radius: i64) -> Circle {
    Circle { body: body_at(vector(x, y)), radius: Fixed::from_int(radius) }
}

fn rectangle(x: i64, y: i64, half_width: i64, half_height: i64) -> Rectangle {
    Rectangle {
        body: body_at(vector(x, y)),
        half_width: Fixed::from_int(half_width),
        half_height: Fixed::from_int(half_height),
    }
}

#[test]
fn test_circle_circle_colliding() {
    let contact = circle_circle(&circle(0, 0, 5), &circle(1, 0, 5));
    assert_eq!(contact.distance, Fixed::from_int(-9));
    assert_eq!(contact.normal, vector(1, 0));
}

#[test]
fn test_circle_circle_not_colliding() {
    let contact = circle_circle(&circle(0, 0, 5), &circle(10, 10, 5));
    assert_eq!(contact.distance, raw(4_142_135));
    assert_eq!(contact.normal, Vec2D { x: raw(707_106), y: raw(707_106) });
}

#[test]
fn test_circle_circle_normal_points_from_the_first_to_the_second() {
    let contact = circle_circle(&circle(4, 0, 5), &circle(0, 0, 5));
    assert_eq!(contact.normal, vector(-1, 0));
    assert_eq!(contact.distance, Fixed::from_int(-6));
    let contact = circle_circle(&circle(0, 3, 1), &circle(0, -1, 1));
    assert_eq!(contact.normal, vector(0, -1));
    assert_eq!(contact.distance, Fixed::from_int(2));
}

#[test]
fn test_circle_circle_touching_has_distance_zero() {
    let contact = circle_circle(&circle(0, 0, 5), &circle(10, 0, 5));
    assert_eq!(contact.distance, Fixed::zero());
}

#[test]
fn test_circle_circle_with_one_centre_has_no_direction() {
    let contact = circle_circle(&circle(2, 2, 5), &circle(2, 2, 5));
    assert_eq!(contact.normal, zero());
    assert_eq!(contact.distance, Fixed::from_int(-10));
}

#[test]
fn test_line_circle_colliding() {
    let line = Line { normal: unit_right(), origin_distance: Fixed::from_int(3) };
    let contact = line_circle(&line, &circle(0, 0, 5));
    assert_eq!(contact.distance, Fixed::from_int(-2));
    assert_eq!(contact.normal, unit_right());
}

#[test]
fn test_line_circle_not_colliding() {
    let line = Line { normal: unit_right(), origin_distance: Fixed::from_int(10) };
    let contact = line_circle(&line, &circle(0, 0, 5));
    assert_eq!(contact.distance, Fixed::from_int(5));
    assert_eq!(contact.normal, unit_right());
}

#[test]
fn test_rectangle_rectangle_tie_takes_the_y_axis() {
    let contact = rectangle_rectangle(&rectangle(0, 0, 5, 5), &rectangle(5, 5, 5, 5));
    assert_eq!(contact, Some(Contact { normal: unit_down(), distance: Fixed::from_int(-5) }));
}

#[test]
fn test_rectangle_rectangle_smaller_overlap_along_x() {
    let contact = rectangle_rectangle(&rectangle(0, 0, 5, 5), &rectangle(8, 1, 5, 5));
    assert_eq!(contact, Some(Contact { normal: unit_right(), distance: Fixed::from_int(-2) }));
    let contact = rectangle_rectangle(&rectangle(0, 0, 5, 5), &rectangle(-8, 1, 5, 5));
    assert_eq!(contact, Some(Contact { normal: unit_left(), distance: Fixed::from_int(-2) }));
}

#[test]
fn test_rectangle_rectangle_smaller_overlap_along_y() {
    let contact = rectangle_rectangle(&rectangle(0, 0, 5, 5), &rectangle(1, -8, 5, 5));
    assert_eq!(contact, Some(Contact { normal: unit_up(), distance: Fixed::from_int(-2) }));
    let contact = rectangle_rectangle(&rectangle(0, 0, 5, 5), &rectangle(1, 8, 5, 5));
    assert_eq!(contact, Some(Contact { normal: unit_down(), distance: Fixed::from_int(-2) }));
}

#[test]
fn test_rectangle_rectangle_with_one_centre() {
    let contact = rectangle_rectangle(&rectangle(0, 0, 5, 3), &rectangle(0, 0, 5, 3));
    assert_eq!(contact, Some(Contact { normal: unit_down(), distance: Fixed::from_int(-6) }));
}

#[test]
fn test_rectangle_rectangle_touching_has_no_contact() {
    assert_eq!(rectangle_rectangle(&rectangle(0, 0, 5, 5), &rectangle(10, 0, 5, 5)), None);
    assert_eq!(rectangle_rectangle(&rectangle(0, 0, 5, 5), &rectangle(0, -10, 5, 5)), None);
}

#[test]
fn test_rectangle_rectangle_apart_has_no_contact() {
    assert_eq!(rectangle_rectangle(&rectangle(0, 0, 5, 5), &rectangle(20, 0, 5, 5)), None);
    assert_eq!(rectangle_rectangle(&rectangle(0, 0, 5, 5), &rectangle(3, 20, 5, 5)), None);
}

#[test]
fn test_circle_rectangle_beside_a_face() {
    let contact = circle_rectangle(&circle(0, 0, 2), &rectangle(5, 0, 2, 2));
    assert_eq!(contact, Contact { normal: vector(1, 0), distance: Fixed::from_int(1) });
    let contact = circle_rectangle(&circle(0, 0, 4), &rectangle(5, 0, 2, 2));
    assert_eq!(contact, Contact { normal: vector(1, 0), distance: Fixed::from_int(-1) });
    let contact = circle_rectangle(&circle(0, 0, 4), &rectangle(0, -5, 2, 2));
    assert_eq!(contact, Contact { normal: vector(0, -1), distance: Fixed::from_int(-1) });
}

#[test]
fn test_circle_rectangle_beside_a_corner() {
    let contact = circle_rectangle(&circle(0, 0, 1), &rectangle(5, 5, 2, 2));
    assert_eq!(
        contact,
        Contact { normal: Vec2D { x: raw(707_106), y: raw(707_106) }, distance: raw(3_242_640) }
    );
}

#[test]
fn test_circle_rectangle_centre_inside_along_x() {
    let small = Circle { body: body_at(vector(1, 0)), radius: raw(500_000) };
    let contact = circle_rectangle(&small, &rectangle(0, 0, 4, 3));
    assert_eq!(contact, Contact { normal: vector(-1, 0), distance: raw(2_500_000) });

    let contact = circle_rectangle(&circle(1, 0, 5), &rectangle(0, 0, 4, 3));
    assert_eq!(contact, Contact { normal: vector(-1, 0), distance: Fixed::from_int(-2) });

    let contact = circle_rectangle(&circle(-1, 0, 5), &rectangle(0, 0, 4, 3));
    assert_eq!(contact, Contact { normal: vector(1, 0), distance: Fixed::from_int(-2) });
}

#[test]
fn test_circle_rectangle_centre_inside_along_y() {
    let contact = circle_rectangle(&circle(0, 2, 2), &rectangle(0, 0, 4, 3));
    assert_eq!(contact, Contact { normal: vector(0, -1), distance: Fixed::from_int(-1) });
    let contact = circle_rectangle(&circle(0, -2, 2), &rectangle(0, 0, 4, 3));
    assert_eq!(contact, Contact { normal: vector(0, 1), distance: Fixed::from_int(-1) });
}

#[test]
fn test_circle_rectangle_with_one_centre() {
    let contact = circle_rectangle(&circle(0, 0, 1), &rectangle(0, 0, 4, 3));
    assert_eq!(contact, Contact { normal: vector(0, 1), distance: Fixed::from_int(2) });
}

#[test]
fn test_circle_rectangle_centre_on_a_face_has_no_direction() {
    let contact = circle_rectangle(&circle(4, 0, 1), &rectangle(0, 0, 4, 3));
    assert_eq!(contact, Contact { normal: zero(), distance: Fixed::from_int(-1) });
}

#[test]
fn test_correction_moves_an_inner_circle_out_through_the_nearest_face() {
    let contact = circle_rectangle(&circle(3, 0, 2), &rectangle(0, 0, 4, 3));
    assert_eq!(contact.distance, Fixed::from_int(-1));
    assert_eq!(contact.normal, vector(-1, 0));
    let moved = vector(3, 0).sub(&contact.normal.mul(Fixed::from_int(1)));
    assert_eq!(moved, vector(4, 0));
}

#[test]
fn test_line_rectangle_takes_the_deepest_corner() {
    let line = Line { normal: unit_right(), origin_distance: Fixed::from_int(3) };
    let contact = line_rectangle(&line, &rectangle(0, 0, 2, 1));
    assert_eq!(contact, Contact { normal: unit_right(), distance: Fixed::from_int(1) });

    let floor = Line { normal: unit_up(), origin_distance: Fixed::from_int(10) };
    let contact = line_rectangle(&floor, &rectangle(0, 9, 1, 2));
    assert_eq!(contact, Contact { normal: unit_up(), distance: Fixed::from_int(-1) });

    let slanted = Line {
        normal: Vec2D { x: raw(600_000), y: raw(800_000) },
        origin_distance: Fixed::zero(),
    };
    let contact = line_rectangle(&slanted, &rectangle(0, 0, 1, 2));
    assert_eq!(contact, Contact { normal: slanted.normal, distance: raw(-2_200_000) });
}

#[test]
fn test_generate_contact_static_dispatches_on_the_shape() {
    let line = StaticBody::Line(Line { normal: unit_right(), origin_distance: Fixed::from_int(3) });
    let contact = generate_contact_static(&line, &DynamicBody::Circle(circle(0, 0, 5)));
    assert_eq!(contact, Contact { normal: unit_right(), distance: Fixed::from_int(-2) });
    let contact = generate_contact_static(&line, &DynamicBody::Rectangle(rectangle(0, 0, 2, 1)));
    assert_eq!(contact, Contact { normal: unit_right(), distance: Fixed::from_int(1) });
}

#[test]
fn test_generate_contact_dynamic_dispatches_on_the_shapes() {
    let round = DynamicBody::Circle(circle(0, 0, 4));
    let other = DynamicBody::Circle(circle(1, 0, 5));
    let square = DynamicBody::Rectangle(rectangle(5, 0, 2, 2));
    let far = DynamicBody::Rectangle(rectangle(50, 0, 2, 2));

    assert_eq!(
        generate_contact_dynamic(&round, &other),
        Some(Contact { normal: vector(1, 0), distance: Fixed::from_int(-8) })
    );
    assert_eq!(
        generate_contact_dynamic(&round, &square),
        Some(Contact { normal: vector(1, 0), distance: Fixed::from_int(-1) })
    );
    assert_eq!(
        generate_contact_dynamic(&square, &round),
        Some(Contact { normal: vector(-1, 0), distance: Fixed::from_int(-1) })
    );
    assert_eq!(generate_contact_dynamic(&square, &far), None);
    assert_eq!(
        generate_contact_dynamic(&round, &far),
        Some(Contact { normal: vector(1, 0), distance: Fixed::from_int(44) })
    );
}

#[test]
fn test_flip_turns_the_normal_and_keeps_the_distance() {
    let contact = Contact { normal: vector(1, -2), distance: Fixed::from_int(-3) };
    assert_eq!(contact.flip(), Contact { normal: vector(-1, 2), distance: Fixed::from_int(-3) });
}

#[test]
fn test_fast_collision_check_with_static_bodies() {
    let line = Body::Static(StaticBody::Line(Line {
        normal: unit_right(),
        origin_distance: Fixed::from_int(3),
    }));
    let other = Body::Static(StaticBody::Line(Line {
        normal: unit_up(),
        origin_distance: Fixed::from_int(3),
    }));
    let round = Body::Dynamic(DynamicBody::Circle(circle(1000, 1000, 1)));
    let square = Body::Dynamic(DynamicBody::Rectangle(rectangle(1000, 1000, 1, 1)));

    assert!(!fast_collision_check(&line, &other));
    assert!(!fast_collision_check(&line, &line));
    assert!(fast_collision_check(&line, &round));
    assert!(fast_collision_check(&round, &line));
    assert!(fast_collision_check(&line, &square));
    assert!(fast_collision_check(&square, &line));
}

#[test]
fn test_fast_collision_check_of_circles() {
    let this = Body::Dynamic(DynamicBody::Circle(circle(0, 0, 5)));
    let near = Body::Dynamic(DynamicBody::Circle(circle(6, 8, 6)));
    let touching = Body::Dynamic(DynamicBody::Circle(circle(6, 8, 5)));
    let far = Body::Dynamic(DynamicBody::Circle(circle(60, 80, 5)));

    assert!(fast_collision_check(&this, &near));
    assert!(fast_collision_check(&near, &this));
    assert!(!fast_collision_check(&this, &touching));
    assert!(!fast_collision_check(&this, &far));
}

#[test]
fn test_fast_collision_check_of_circles_agrees_with_the_contact() {
    let mut state: u64 = 0x9e37_79b9_7f4a_7c15;
    for _ in 0..2000 {
        let mut next = || {
            state = state.wrapping_mul(6364136223846793005).wrapping_add(1442695040888963407);
            ((state >> 33) % 41) as i64 - 20
        };
        let this = circle(next(), next(), next().abs() + 1);
        let that = circle(next(), next(), next().abs() + 1);
        let passes = fast_collision_check(
            &Body::Dynamic(DynamicBody::Circle(this)),
            &Body::Dynamic(DynamicBody::Circle(that)),
        );
        assert_eq!(passes, circle_circle(&this, &that).distance.raw < 0);
    }
}

#[test]
fn test_fast_collision_check_of_rectangles() {
    let this = Body::Dynamic(DynamicBody::Rectangle(rectangle(0, 0, 5, 5)));
    let near = Body::Dynamic(DynamicBody::Rectangle(rectangle(9, -9, 5, 5)));
    let touching = Body::Dynamic(DynamicBody::Rectangle(rectangle(10, 0, 5, 5)));
    let far = Body::Dynamic(DynamicBody::Rectangle(rectangle(0, 30, 5, 5)));

    assert!(fast_collision_check(&this, &near));
    assert!(fast_collision_check(&near, &this));
    assert!(!fast_collision_check(&this, &touching));
    assert!(!fast_collision_check(&this, &far));
}

#[test]
fn test_fast_collision_check_lets_every_circle_and_rectangle_pass() {
    let round = Body::Dynamic(DynamicBody::Circle(circle(0, 0, 1)));
    let square = Body::Dynamic(DynamicBody::Rectangle(rectangle(1000, 1000, 1, 1)));

    assert!(fast_collision_check(&round, &square));
    assert!(fast_collision_check(&square, &round));
}
