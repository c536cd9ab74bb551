use physics_engine::fixed::Fixed;
use physics_engine::vec2::{unit_down, unit_left, unit_right, unit_up, zero, Vec2D};

fn raw(value: i64) -> Fixed {
    Fixed::from_raw(value)
}

fn vector(x: i64, y: i64) -> Vec2D {
    Vec2D { x: Fixed::from_int(x), y: Fixed::from_int(y) }
}

#[test]
fn test_unit_vectors() {
    assert_eq!(zero(), vector(0, 0));
    assert_eq!(unit_up(), vector(0, -1));
    assert_eq!(unit_right(), vector(1, 0));
    assert_eq!(unit_down(), vector(0, 1));
    assert_eq!(unit_left(), vector(-1, 0));
}

#[test]
fn test_dot_product() {
    assert_eq!(vector(1, 2).dot_product(&vector(3, 4)), Fixed::from_int(11));
    assert_eq!(vector(1, 2).dot_product(&vector(-2, 1)), Fixed::from_int(0));
    assert_eq!(
        Vec2D { x: raw(1_500_000), y: raw(-500_000) }.dot_product(&vector(2, 4)),
        Fixed::from_int(1)
    );
}

#[test]
fn test_length_squared() {
    assert_eq!(vector(3, 4).length_squared(), Fixed::from_int(25));
    assert_eq!(vector(-3, -4).length_squared(), Fixed::from_int(25));
    assert_eq!(zero().length_squared(), Fixed::from_int(0));
}

#[test]
fn test_length() {
    assert_eq!(vector(3, 4).length(), Fixed::from_int(5));
    assert_eq!(vector(-3, 4).length(), Fixed::from_int(5));
    assert_eq!(vector(1, 0).length(), Fixed::from_int(1));
    assert_eq!(zero().length(), Fixed::from_int(0));
    assert_eq!(vector(1, 1).length(), raw(1_414_213));
    assert_eq!(vector(10, 10).length(), raw(14_142_135));
}

#[test]
fn test_length_saturates() {
    let far = Vec2D { x: raw(i64::MIN), y: raw(i64::MIN) };
    assert_eq!(far.length(), raw(i64::MAX));
    let along = Vec2D { x: raw(i64::MAX), y: raw(0) };
    assert_eq!(along.length(), raw(i64::MAX));
}

#[test]
fn test_abs_clamp_min_max() {
    assert_eq!(vector(-3, 4).abs(), vector(3, 4));
    assert_eq!(vector(-3, 4).clamp(&vector(-1, -1), &vector(1, 1)), vector(-1, 1));
    assert_eq!(vector(0, 0).clamp(&vector(-1, -1), &vector(1, 1)), vector(0, 0));
    assert_eq!(vector(-3, 4).min(&vector(2, 2)), vector(-3, 2));
    assert_eq!(vector(-3, 4).max(&vector(2, 2)), vector(2, 4));
}

#[test]
fn test_arithmetic() {
    assert_eq!(vector(1, 2).add(&vector(3, -5)), vector(4, -3));
    assert_eq!(vector(1, 2).sub(&vector(3, -5)), vector(-2, 7));
    assert_eq!(vector(1, 2).mul(Fixed::from_int(3)), vector(3, 6));
    assert_eq!(vector(1, 2).mul(raw(500_000)), Vec2D { x: raw(500_000), y: raw(1_000_000) });
    assert_eq!(vector(3, -6).div(Fixed::from_int(3)), vector(1, -2));
    assert_eq!(vector(1, 2).div(Fixed::from_int(3)), Vec2D { x: raw(333_333), y: raw(666_666) });
    assert_eq!(vector(1, -2).neg(), vector(-1, 2));
}

#[test]
fn test_division_by_zero_saturates_each_component() {
    assert_eq!(
        vector(1, -2).div(Fixed::zero()),
        Vec2D { x: raw(i64::MAX), y: raw(i64::MIN) }
    );
    assert_eq!(zero().div(Fixed::zero()), zero());
}

#[test]
fn test_assigning_arithmetic() {
    let mut v = vector(1, 2);
    v.add_assign(&vector(3, -5));
    assert_eq!(v, vector(4, -3));
    v.sub_assign(&vector(1, 1));
    assert_eq!(v, vector(3, -4));
    v.mul_assign(Fixed::from_int(2));
    assert_eq!(v, vector(6, -8));
    v.div_assign(Fixed::from_int(4));
    assert_eq!(v, Vec2D { x: raw(1_500_000), y: raw(-2_000_000) });
}
