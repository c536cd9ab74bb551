use physics_engine::bounding_volume::BoundingVolume;
use physics_engine::fixed::Fixed;
use physics_engine::vec2::{zero, Vec2D};

fn point(x: i64, y: i64) -> Vec2D {
    Vec2D { x: Fixed::from_int(x), y: Fixed::from_int(y) }
}

fn create_square(top_left: Vec2D, width: i64) -> BoundingVolume {
    BoundingVolume {
        top_left,
        bottom_right: Vec2D {
            x: top_left.x.add(Fixed::from_int(width)),
            y: top_left.y.add(Fixed::from_int(width)),
        },
    }
}

#[test]
fn test_is_intersecting_returns_true_for_intersecting_bounding_volumes() {
    let bv1 = create_square(zero(), 10);
    let bv2 = create_square(point(5, 5), 10);

    assert!(bv1.is_intersecting(&bv2));
}

#[test]
fn test_is_intersecting_returns_true_for_the_same_bounding_volume() {
    let bv = create_square(zero(), 10);

    assert!(bv.is_intersecting(&bv));
}

#[test]
fn test_is_intersecting_returns_false_for_touching_bounding_volumes() {
    let bv1 = create_square(zero(), 10);
    let bv2 = create_square(point(10, 0), 10);

    assert!(!bv1.is_intersecting(&bv2));
}

#[test]
fn test_is_intersecting_returns_false_for_non_intersecting_bounding_volumes() {
    let bv1 = create_square(zero(), 10);
    let bv2 = create_square(point(20, 0), 10);

    assert!(!bv1.is_intersecting(&bv2));
}

#[test]
fn test_union_works() {
    let bv1 = create_square(zero(), 10);
    let bv2 = create_square(point(5, 5), 10);

    let expected_result = create_square(zero(), 15);

    assert_eq!(bv1.union(&bv2), expected_result);
    assert_eq!(bv2.union(&bv1), expected_result);
}

#[test]
fn test_is_intersecting_is_symmetric() {
    let boxes = [
        create_square(zero(), 10),
        create_square(point(5, 5), 10),
        create_square(point(10, 0), 10),
        create_square(point(-3, 7), 4),
        create_square(point(20, 20), 1),
    ];
    for a in boxes.iter() {
        for b in boxes.iter() {
            assert_eq!(a.is_intersecting(b), b.is_intersecting(a));
        }
    }
}

#[test]
fn test_boxes_touching_at_a_corner_do_not_intersect() {
    let bv1 = create_square(zero(), 10);
    let bv2 = create_square(point(10, 10), 10);

    assert!(!bv1.is_intersecting(&bv2));
    assert!(!bv2.is_intersecting(&bv1));
}

#[test]
fn test_boxes_touching_along_y_do_not_intersect() {
    let bv1 = create_square(zero(), 10);
    let bv2 = create_square(point(0, -10), 10);

    assert!(!bv1.is_intersecting(&bv2));
    assert!(!bv2.is_intersecting(&bv1));
}

#[test]
fn test_boxes_overlapping_by_one_raw_unit_intersect() {
    let bv1 = create_square(zero(), 10);
    let bv2 = BoundingVolume {
        top_left: Vec2D { x: Fixed::from_raw(9_999_999), y: Fixed::from_raw(9_999_999) },
        bottom_right: point(20, 20),
    };

    assert!(bv1.is_intersecting(&bv2));
}

#[test]
fn test_union_contains_both_boxes() {
    let bv1 = create_square(point(-4, 2), 3);
    let bv2 = create_square(point(6, -8), 5);
    let union = bv1.union(&bv2);

    assert_eq!(union.top_left, point(-4, -8));
    assert_eq!(union.bottom_right, point(11, 5));
    assert_eq!(union.union(&bv1), union);
    assert_eq!(union.union(&bv2), union);
}

#[test]
fn test_union_is_associative() {
    let bv1 = create_square(point(-4, 2), 3);
    let bv2 = create_square(point(6, -8), 5);
    let bv3 = create_square(point(1, 1), 20);

    assert_eq!(bv1.union(&bv2).union(&bv3), bv1.union(&bv2.union(&bv3)));
}
