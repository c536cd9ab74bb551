use physics_engine::bounding_volume::BoundingVolume;
use physics_engine::fixed::Fixed;
use physics_engine::simulation::world::BoundingVolumeHierarchyTree;
use physics_engine::simulation::world::BoundingVolumeHierarchyTree::{Leaf, Node};
use physics_engine::vec2::{zero, Vec2D};

fn point(x: i64, y: i64) -> Vec2D {
    Vec2D { x: Fixed::from_int(x), y: Fixed::from_int(y) }
}

fn create_square(top_left: Vec2D, width: i64) -> BoundingVolume {
    BoundingVolume {
        top_left,
        bottom_right: Vec2D {
            x: top_left.x.add(Fixed::from_int(width)),
            y: top_left.y.add(Fixed::from_int(width)),
        },
    }
}

#[test]
fn test_bvh_new() {
    let bv1 = create_square(zero(), 10);
    let bv2 = create_square(point(20, 0), 10);
    let bv3 = create_square(point(20, 20), 10);
    let bv4 = create_square(point(0, 20), 10);

    let bounding_volumes: Vec<_> = vec![bv1, bv2, bv3, bv4].into_iter().enumerate().collect();

    let bvh = BoundingVolumeHierarchyTree::new(&bounding_volumes);

    assert_eq!(
        bvh,
        Some(Node(
            bv1.union(&bv2).union(&bv3).union(&bv4),
            Box::new(Node(
                bv1.union(&bv2),
                Box::new(Leaf(bv1, 0)),
                Box::new(Leaf(bv2, 1))
            )),
            Box::new(Node(
                bv3.union(&bv4),
                Box::new(Leaf(bv4, 3)),
                Box::new(Leaf(bv3, 2)),
            ))
        ))
    );
}

struct Generator {
    state: u64,
}

impl Generator {
    fn next(&mut self, bound: i64) -> i64 {
        self.state = self.state.wrapping_mul(6364136223846793005).wrapping_add(1442695040888963407);
        ((self.state >> 33) % (bound as u64)) as i64
    }

    fn volume(&mut self, span: i64, size: i64) -> BoundingVolume {
        let left = self.next(span) - span / 2;
        let top = self.next(span) - span / 2;
        let width = self.next(size) + 1;
        let height = self.next(size) + 1;
        BoundingVolume {
            top_left: Vec2D { x: Fixed::from_raw(left), y: Fixed::from_raw(top) },
            bottom_right: Vec2D { x: Fixed::from_raw(left + width), y: Fixed::from_raw(top + height) },
        }
    }
}

fn brute_force(volumes: &[(usize, BoundingVolume)], query: &BoundingVolume) -> Vec<usize> {
    let mut found: Vec<usize> = volumes
        .iter()
        .filter(|(_, volume)| volume.is_intersecting(query))
        .map(|(index, _)| *index)
        .collect();
    found.sort();
    found
}

fn check_against_brute_force(seed: u64, count: usize, span: i64, size: i64) {
    let mut generator = Generator { state: seed };
    let volumes: Vec<(usize, BoundingVolume)> =
        (0..count).map(|index| (index, generator.volume(span, size))).collect();
    let tree = BoundingVolumeHierarchyTree::new(&volumes).expect("a tree over every list but the empty one");
    for (_, query) in volumes.iter() {
        let mut found = tree.get_overlapping_bodies(query);
        found.sort();
        assert_eq!(found, brute_force(&volumes, query));
    }
    for _ in 0..50 {
        let query = generator.volume(2 * span, 4 * size);
        let mut found = tree.get_overlapping_bodies(&query);
        found.sort();
        assert_eq!(found, brute_force(&volumes, &query));
    }
}

#[test]
fn test_bvh_new_over_nothing_is_none() {
    assert_eq!(BoundingVolumeHierarchyTree::new(&[]), None);
}

#[test]
fn test_bvh_new_over_one_box_is_a_leaf() {
    let bv = create_square(point(3, 4), 2);
    assert_eq!(BoundingVolumeHierarchyTree::new(&[(7, bv)]), Some(Leaf(bv, 7)));
}

#[test]
fn test_bvh_new_over_two_equal_boxes_moves_one_to_the_left() {
    let bv = create_square(zero(), 10);
    assert_eq!(
        BoundingVolumeHierarchyTree::new(&[(0, bv), (1, bv)]),
        Some(Node(bv, Box::new(Leaf(bv, 1)), Box::new(Leaf(bv, 0))))
    );
}

#[test]
fn test_bvh_new_splits_a_square_extent_along_y() {
    let bv1 = create_square(zero(), 10);
    let bv2 = create_square(point(20, 20), 10);
    assert_eq!(
        BoundingVolumeHierarchyTree::new(&[(0, bv2), (1, bv1)]),
        Some(Node(bv1.union(&bv2), Box::new(Leaf(bv1, 1)), Box::new(Leaf(bv2, 0))))
    );
}

#[test]
fn test_bvh_new_over_many_equal_boxes_keeps_every_index() {
    let bv = create_square(zero(), 10);
    let volumes: Vec<(usize, BoundingVolume)> = (0..100).map(|index| (index, bv)).collect();
    let tree = BoundingVolumeHierarchyTree::new(&volumes).expect("a tree over every list but the empty one");
    let mut found = tree.get_overlapping_bodies(&bv);
    found.sort();
    assert_eq!(found, (0..100).collect::<Vec<usize>>());
    assert_eq!(tree.get_overlapping_bodies(&create_square(point(10, 0), 5)), Vec::<usize>::new());
}

#[test]
fn test_get_overlapping_bodies_walks_left_before_right() {
    let bv1 = create_square(zero(), 10);
    let bv2 = create_square(point(20, 0), 10);
    let bv3 = create_square(point(20, 20), 10);
    let bv4 = create_square(point(0, 20), 10);
    let volumes: Vec<(usize, BoundingVolume)> =
        vec![bv1, bv2, bv3, bv4].into_iter().enumerate().collect();
    let tree = BoundingVolumeHierarchyTree::new(&volumes).expect("a tree over four boxes");

    assert_eq!(tree.get_overlapping_bodies(&create_square(point(-5, -5), 100)), vec![0, 1, 3, 2]);
    assert_eq!(tree.get_overlapping_bodies(&create_square(point(5, 5), 20)), vec![0, 1, 3, 2]);
    assert_eq!(tree.get_overlapping_bodies(&create_square(point(25, 5), 2)), vec![1]);
    assert_eq!(tree.get_overlapping_bodies(&create_square(point(10, 10), 10)), Vec::<usize>::new());
    assert_eq!(tree.get_overlapping_bodies(&create_square(point(100, 100), 1)), Vec::<usize>::new());
}

#[test]
fn test_get_overlapping_bodies_matches_brute_force_for_one_box() {
    check_against_brute_force(1, 1, 1_000, 100);
}

#[test]
fn test_get_overlapping_bodies_matches_brute_force_for_few_boxes() {
    for count in 2..40 {
        check_against_brute_force(count as u64, count, 1_000, 300);
    }
}

#[test]
fn test_get_overlapping_bodies_matches_brute_force_for_crowded_boxes() {
    check_against_brute_force(77, 300, 50, 40);
}

#[test]
fn test_get_overlapping_bodies_matches_brute_force_for_sparse_boxes() {
    check_against_brute_force(78, 300, 1_000_000, 10);
}

#[test]
fn test_get_overlapping_bodies_matches_brute_force_for_a_thousand_boxes() {
    check_against_brute_force(79, 1000, 10_000, 400);
}
