use physics_engine::body::{BaseDynamicBody, Circle, DynamicBody, Line, Rectangle, StaticBody};
use physics_engine::bounding_volume::BoundingVolume;
use physics_engine::fixed::Fixed;
use physics_engine::vec2::{unit_right, zero, Vec2D};

fn raw(value: i64) -> Fixed {
    Fixed::from_raw(value)
}

fn vector(x: i64, y: i64) -> Vec2D {
    Vec2D { x: Fixed::from_int(x), y: Fixed::from_int(y) }
}

fn body_at(position: Vec2D, velocity: Vec2D) -> BaseDynamicBody {
    BaseDynamicBody {
        position,
        velocity,
        coefficient_of_restitution: Fixed::one(),
        inverse_mass: Fixed::one(),
    }
}

#[test]
fn test_circle_to_bounding_volume() {
    let circle = Circle { body: body_at(vector(3, 4), zero()), radius: Fixed::from_int(2) };
    assert_eq!(
        circle.to_bounding_volume(),
        BoundingVolume { top_left: vector(1, 2), bottom_right: vector(5, 6) }
    );
    assert_eq!(DynamicBody::Circle(circle).to_bounding_volume(), circle.to_bounding_volume());
}

#[test]
fn test_rectangle_to_bounding_volume_and_min_max() {
    let rectangle = Rectangle {
        body: body_at(vector(1, -1), zero()),
        half_width: Fixed::from_int(2),
        half_height: Fixed::from_int(3),
    };
    assert_eq!(
        rectangle.to_bounding_volume(),
        BoundingVolume { top_left: vector(-1, -4), bottom_right: vector(3, 2) }
    );
    assert_eq!(
        rectangle.get_min_max(),
        (Fixed::from_int(-1), Fixed::from_int(3), Fixed::from_int(-4), Fixed::from_int(2))
    );
    assert_eq!(
        DynamicBody::Rectangle(rectangle).to_bounding_volume(),
        rectangle.to_bounding_volume()
    );
}

#[test]
fn test_bounding_volume_saturates_at_the_edge_of_the_plane() {
    let circle = Circle {
        body: body_at(Vec2D { x: raw(i64::MAX), y: raw(i64::MIN) }, zero()),
        radius: Fixed::from_int(2),
    };
    let volume = circle.to_bounding_volume();
    assert_eq!(volume.bottom_right.x, raw(i64::MAX));
    assert_eq!(volume.top_left.y, raw(i64::MIN));
    assert_eq!(volume.top_left.x, raw(i64::MAX - 2_000_000));
    assert_eq!(volume.bottom_right.y, raw(i64::MIN + 2_000_000));
}

#[test]
fn test_integrate_moves_by_velocity_times_time() {
    let mut body = body_at(vector(1, 1), vector(2, -4));
    body.integrate(raw(500_000));
    assert_eq!(body.position, vector(2, -1));
    assert_eq!(body.velocity, vector(2, -4));
}

#[test]
fn test_integrate_for_no_time_changes_nothing() {
    let mut body = body_at(vector(1, 1), vector(2, -4));
    let before = body;
    body.integrate(Fixed::zero());
    assert_eq!(body, before);
}

#[test]
fn test_as_ref_and_as_mut_reach_the_moving_part() {
    let mut circle = DynamicBody::Circle(Circle {
        body: body_at(vector(3, 4), zero()),
        radius: Fixed::from_int(2),
    });
    assert_eq!(circle.as_ref().position, vector(3, 4));
    circle.as_mut().velocity = vector(1, 1);
    assert_eq!(circle.as_ref().velocity, vector(1, 1));
    match circle {
        DynamicBody::Circle(inner) => {
            assert_eq!(inner.radius, Fixed::from_int(2));
            assert_eq!(inner.body.velocity, vector(1, 1));
        }
        DynamicBody::Rectangle(_) => panic!("the shape changed"),
    }

    let mut rectangle = DynamicBody::Rectangle(Rectangle {
        body: body_at(vector(0, 0), zero()),
        half_width: Fixed::from_int(2),
        half_height: Fixed::from_int(3),
    });
    rectangle.as_mut().position = vector(9, 9);
    assert_eq!(rectangle.as_ref().position, vector(9, 9));
}

#[test]
fn test_line_new_keeps_its_arguments() {
    let line = Line::new(unit_right(), Fixed::from_int(3));
    assert_eq!(line.normal, unit_right());
    assert_eq!(line.origin_distance, Fixed::from_int(3));
    assert_eq!(StaticBody::Line(line), StaticBody::Line(Line { normal: unit_right(), origin_distance: Fixed::from_int(3) }));
}

#[test]
fn test_signed_distance_from_a_line() {
    let line = Line::new(unit_right(), Fixed::from_int(3));
    assert_eq!(line.signed_distance(&vector(2, 7)), Fixed::from_int(5));
    assert_eq!(line.signed_distance(&vector(-3, 7)), Fixed::from_int(0));
    assert_eq!(line.signed_distance(&vector(-10, 0)), Fixed::from_int(-7));
}
