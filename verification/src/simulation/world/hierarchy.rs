//! The broad phase: a binary tree of bounding volumes, built afresh over a
//! list of boxes and asked which of them overlap a given box.

use crate::bounding_volume::{lemma_intersecting_inner_intersects_outer, BoundingVolume};
use crate::fixed::Fixed;
use vstd::prelude::*;

verus! {

/// A box together with the index of the body it bounds.
pub type Entry = (usize, BoundingVolume);

/// A binary tree whose leaves are the indexed boxes it was built over and
/// whose inner nodes hold the union of the boxes beneath them.
#[derive(Debug, PartialEq)]
pub enum BoundingVolumeHierarchyTree {
    Leaf(BoundingVolume, usize),
    Node(BoundingVolume, Box<BoundingVolumeHierarchyTree>, Box<BoundingVolumeHierarchyTree>),
}

/// The union of the boxes of the first `count` entries, of which there is at
/// least one.
pub open spec fn union_of(entries: Seq<Entry>, count: int) -> BoundingVolume
    decreases count,
{
    if count <= 1 {
        entries[0].1
    } else {
        union_of(entries, count - 1).union_spec(entries[count - 1].1)
    }
}

/// The point halfway between `low` and `high`.
pub open spec fn mid_point(low: Fixed, high: Fixed) -> Fixed {
    low.add_spec(high).div_spec(Fixed::from_int_spec(2))
}

/// Whether a box of this extent is split along the x axis: it is when it is
/// strictly wider than it is tall.
pub open spec fn splits_on_x(overall: BoundingVolume) -> bool {
    overall.bottom_right.x.sub_spec(overall.top_left.x).raw > overall.bottom_right.y.sub_spec(
        overall.top_left.y,
    ).raw
}

/// Whether a box goes to the left side when `overall` is split: it does when
/// its own mid point on the split axis lies strictly before that of `overall`.
pub open spec fn goes_left(volume: BoundingVolume, overall: BoundingVolume) -> bool {
    if splits_on_x(overall) {
        mid_point(volume.top_left.x, volume.bottom_right.x).raw < mid_point(
            overall.top_left.x,
            overall.bottom_right.x,
        ).raw
    } else {
        mid_point(volume.top_left.y, volume.bottom_right.y).raw < mid_point(
            overall.top_left.y,
            overall.bottom_right.y,
        ).raw
    }
}

/// Those of the first `count` entries that go left, in their order.
pub open spec fn left_share(entries: Seq<Entry>, overall: BoundingVolume, count: int) -> Seq<Entry>
    decreases count,
{
    if count <= 0 {
        Seq::empty()
    } else if goes_left(entries[count - 1].1, overall) {
        left_share(entries, overall, count - 1).push(entries[count - 1])
    } else {
        left_share(entries, overall, count - 1)
    }
}

/// Those of the first `count` entries that go right, in their order.
pub open spec fn right_share(entries: Seq<Entry>, overall: BoundingVolume, count: int) -> Seq<
    Entry,
>
    decreases count,
{
    if count <= 0 {
        Seq::empty()
    } else if goes_left(entries[count - 1].1, overall) {
        right_share(entries, overall, count - 1)
    } else {
        right_share(entries, overall, count - 1).push(entries[count - 1])
    }
}

/// The least number of entries that each side of a split of `total` entries
/// must receive.
pub open spec fn minimum_share(total: int) -> int {
    if total / 16 > 1 {
        total / 16
    } else {
        1
    }
}

/// Moves entries one by one from the tail of `from` to the tail of `to`,
/// until `to` holds `least` entries or `from` is empty. The result is the
/// new `to` and the new `from`.
pub open spec fn top_up(to: Seq<Entry>, from: Seq<Entry>, least: int) -> (Seq<Entry>, Seq<Entry>)
    decreases from.len(),
{
    if to.len() < least && from.len() > 0 {
        top_up(to.push(from.last()), from.drop_last(), least)
    } else {
        (to, from)
    }
}

/// The left and the right side into which two or more entries are split:
/// each entry goes by its mid point, then the side that is short of the
/// minimum share is topped up from the other, the left side first.
pub open spec fn balanced_shares(entries: Seq<Entry>) -> (Seq<Entry>, Seq<Entry>) {
    let overall = union_of(entries, entries.len() as int);
    let left = left_share(entries, overall, entries.len() as int);
    let right = right_share(entries, overall, entries.len() as int);
    let least = minimum_share(entries.len() as int);
    let (left, right) = top_up(left, right, least);
    let (right, left) = top_up(right, left, least);
    (left, right)
}

/// The tree over `entries`: none for no entry, a leaf for one, and otherwise
/// a node that holds the union of all boxes above the trees of the two
/// balanced shares.
pub open spec fn build(entries: Seq<Entry>) -> Option<BoundingVolumeHierarchyTree>
    decreases entries.len(),
{
    if entries.len() == 0 {
        None
    } else if entries.len() == 1 {
        Some(BoundingVolumeHierarchyTree::Leaf(entries[0].1, entries[0].0))
    } else {
        let (left, right) = balanced_shares(entries);
        proof {
            lemma_balanced_shares(entries);
        }
        match (build(left), build(right)) {
            (Some(left_tree), Some(right_tree)) => Some(
                BoundingVolumeHierarchyTree::Node(
                    union_of(entries, entries.len() as int),
                    Box::new(left_tree),
                    Box::new(right_tree),
                ),
            ),
            _ => None,
        }
    }
}

/// The indices of the entries whose box overlaps `query`, as a set.
pub open spec fn brute_force_overlapping(entries: Seq<Entry>, query: BoundingVolume) -> Set<usize> {
    Set::new(
        |index: usize|
            exists|k: int|
                0 <= k < entries.len() && (#[trigger] entries[k]).0 == index
                    && entries[k].1.is_intersecting_spec(query),
    )
}

/// Topping up keeps every entry, fills `to` up to `least` where the two
/// sides hold that many between them, and leaves `to` alone where it already
/// holds enough.
pub proof fn lemma_top_up(to: Seq<Entry>, from: Seq<Entry>, least: int)
    ensures
        top_up(to, from, least).0.len() + top_up(to, from, least).1.len() == to.len() + from.len(),
        top_up(to, from, least).0.len() >= to.len(),
        to.len() + from.len() >= least ==> top_up(to, from, least).0.len() >= least,
        to.len() <= least ==> top_up(to, from, least).0.len() <= least,
        to.len() >= least ==> top_up(to, from, least) == (to, from),
        forall|entry: Entry|
            (top_up(to, from, least).0.contains(entry) || top_up(to, from, least).1.contains(entry))
                <==> (to.contains(entry) || from.contains(entry)),
    decreases from.len(),
{
    if to.len() < least && from.len() > 0 {
        let moved = from.last();
        let next_to = to.push(moved);
        let next_from = from.drop_last();
        lemma_top_up(next_to, next_from, least);
        assert forall|entry: Entry|
            (next_to.contains(entry) || next_from.contains(entry)) <==> (to.contains(entry)
                || from.contains(entry)) by {
            if to.contains(entry) {
                let i = choose|i: int| 0 <= i < to.len() && to[i] == entry;
                assert(next_to[i] == entry);
            }
            if from.contains(entry) {
                let i = choose|i: int| 0 <= i < from.len() && from[i] == entry;
                if i == from.len() - 1 {
                    assert(next_to[to.len() as int] == entry);
                } else {
                    assert(next_from[i] == entry);
                }
            }
            if next_to.contains(entry) {
                let i = choose|i: int| 0 <= i < next_to.len() && next_to[i] == entry;
                if i == to.len() {
                    assert(from[from.len() - 1] == entry);
                } else {
                    assert(to[i] == entry);
                }
            }
            if next_from.contains(entry) {
                let i = choose|i: int| 0 <= i < next_from.len() && next_from[i] == entry;
                assert(from[i] == entry);
            }
        }
    }
}

/// The two shares of the first `count` entries hold each of them once
/// between them.
pub proof fn lemma_shares(entries: Seq<Entry>, overall: BoundingVolume, count: int)
    requires
        0 <= count <= entries.len(),
    ensures
        left_share(entries, overall, count).len() + right_share(entries, overall, count).len()
            == count,
        forall|entry: Entry|
            (left_share(entries, overall, count).contains(entry) || right_share(
                entries,
                overall,
                count,
            ).contains(entry)) <==> (exists|j: int| 0 <= j < count && entries[j] == entry),
    decreases count,
{
    if count > 0 {
        lemma_shares(entries, overall, count - 1);
        let left = left_share(entries, overall, count);
        let right = right_share(entries, overall, count);
        let left_before = left_share(entries, overall, count - 1);
        let right_before = right_share(entries, overall, count - 1);
        let last = entries[count - 1];
        assert forall|entry: Entry|
            (left.contains(entry) || right.contains(entry)) <==> (exists|j: int|
                0 <= j < count && entries[j] == entry) by {
            if left.contains(entry) || right.contains(entry) {
                if left_before.contains(entry) || right_before.contains(entry) {
                    let j = choose|j: int| 0 <= j < count - 1 && entries[j] == entry;
                    assert(0 <= j < count && entries[j] == entry);
                } else {
                    if left.contains(entry) {
                        let i = choose|i: int| 0 <= i < left.len() && left[i] == entry;
                        if goes_left(last.1, overall) {
                            if i < left_before.len() {
                                assert(left_before[i] == entry);
                            }
                        }
                    } else {
                        let i = choose|i: int| 0 <= i < right.len() && right[i] == entry;
                        if !goes_left(last.1, overall) {
                            if i < right_before.len() {
                                assert(right_before[i] == entry);
                            }
                        }
                    }
                    assert(entries[count - 1] == entry);
                }
            }
            if exists|j: int| 0 <= j < count && entries[j] == entry {
                let j = choose|j: int| 0 <= j < count && entries[j] == entry;
                if j == count - 1 {
                    if goes_left(last.1, overall) {
                        assert(left[left_before.len() as int] == entry);
                    } else {
                        assert(right[right_before.len() as int] == entry);
                    }
                } else {
                    assert(0 <= j < count - 1 && entries[j] == entry);
                    if left_before.contains(entry) {
                        let i = choose|i: int| 0 <= i < left_before.len() && left_before[i] == entry;
                        assert(left[i] == entry);
                    } else {
                        let i = choose|i: int|
                            0 <= i < right_before.len() && right_before[i] == entry;
                        assert(right[i] == entry);
                    }
                }
            }
        }
    }
}

/// Two or more entries are split into two sides that hold at least the
/// minimum share each, and every entry between them.
pub proof fn lemma_balanced_shares(entries: Seq<Entry>)
    requires
        entries.len() >= 2,
    ensures
        balanced_shares(entries).0.len() >= minimum_share(entries.len() as int),
        balanced_shares(entries).1.len() >= minimum_share(entries.len() as int),
        minimum_share(entries.len() as int) >= 1,
        balanced_shares(entries).0.len() + balanced_shares(entries).1.len() == entries.len(),
        forall|entry: Entry|
            (balanced_shares(entries).0.contains(entry) || balanced_shares(entries).1.contains(
                entry,
            )) <==> entries.contains(entry),
{
    let total = entries.len() as int;
    let overall = union_of(entries, total);
    let left = left_share(entries, overall, total);
    let right = right_share(entries, overall, total);
    let least = minimum_share(total);
    lemma_shares(entries, overall, total);
    lemma_top_up(left, right, least);
    let (left_1, right_1) = top_up(left, right, least);
    lemma_top_up(right_1, left_1, least);
    let (right_2, left_2) = top_up(right_1, left_1, least);
    assert(balanced_shares(entries) == (left_2, right_2));
    assert forall|entry: Entry|
        (left_2.contains(entry) || right_2.contains(entry)) <==> entries.contains(entry) by {
        assert((left_2.contains(entry) || right_2.contains(entry)) <==> (left_1.contains(entry)
            || right_1.contains(entry)));
        assert((left_1.contains(entry) || right_1.contains(entry)) <==> (left.contains(entry)
            || right.contains(entry)));
        assert((left.contains(entry) || right.contains(entry)) <==> (exists|j: int|
            0 <= j < total && entries[j] == entry));
        if entries.contains(entry) {
            let j = choose|j: int| 0 <= j < entries.len() && entries[j] == entry;
            assert(0 <= j < total && entries[j] == entry);
        }
        if exists|j: int| 0 <= j < total && entries[j] == entry {
            let j = choose|j: int| 0 <= j < total && entries[j] == entry;
            assert(entries[j] == entry);
        }
    }
}

/// The union of the first `count` boxes contains each of them.
pub proof fn lemma_union_of_contains(entries: Seq<Entry>, count: int, j: int)
    requires
        0 <= j < count <= entries.len(),
    ensures
        union_of(entries, count).contains(entries[j].1),
    decreases count,
{
    if count > 1 {
        if j < count - 1 {
            lemma_union_of_contains(entries, count - 1, j);
        }
    }
}

/// Over one or more entries there is a tree. It is well formed, and its
/// leaves are the entries.
pub proof fn lemma_build(entries: Seq<Entry>)
    requires
        entries.len() >= 1,
    ensures
        build(entries) is Some,
        build(entries).unwrap().wf(),
        build(entries).unwrap().leaves().len() == entries.len(),
        forall|entry: Entry|
            build(entries).unwrap().leaves().contains(entry) <==> entries.contains(entry),
    decreases entries.len(),
{
    if entries.len() == 1 {
        let tree = build(entries).unwrap();
        assert(tree.leaves() =~= seq![entries[0]]);
        assert(tree.leaves() =~= entries);
    } else {
        lemma_balanced_shares(entries);
        let (left, right) = balanced_shares(entries);
        lemma_build(left);
        lemma_build(right);
        let left_tree = build(left).unwrap();
        let right_tree = build(right).unwrap();
        let overall = union_of(entries, entries.len() as int);
        let tree = build(entries).unwrap();
        assert(tree == BoundingVolumeHierarchyTree::Node(
            overall,
            Box::new(left_tree),
            Box::new(right_tree),
        ));
        let leaves = tree.leaves();
        assert(leaves == left_tree.leaves() + right_tree.leaves());
        assert forall|entry: Entry| leaves.contains(entry) <==> entries.contains(entry) by {
            if leaves.contains(entry) {
                let i = choose|i: int| 0 <= i < leaves.len() && leaves[i] == entry;
                if i < left_tree.leaves().len() {
                    assert(left_tree.leaves()[i] == entry);
                    assert(left_tree.leaves().contains(entry));
                } else {
                    assert(right_tree.leaves()[i - left_tree.leaves().len()] == entry);
                    assert(right_tree.leaves().contains(entry));
                }
            }
            if entries.contains(entry) {
                if left.contains(entry) {
                    assert(left_tree.leaves().contains(entry));
                    let i = choose|i: int|
                        0 <= i < left_tree.leaves().len() && left_tree.leaves()[i] == entry;
                    assert(leaves[i] == entry);
                } else {
                    assert(right.contains(entry));
                    assert(right_tree.leaves().contains(entry));
                    let i = choose|i: int|
                        0 <= i < right_tree.leaves().len() && right_tree.leaves()[i] == entry;
                    assert(leaves[left_tree.leaves().len() + i] == entry);
                }
            }
        }
        assert forall|k: int| 0 <= k < leaves.len() implies overall.contains(
            (#[trigger] leaves[k]).1,
        ) by {
            assert(leaves.contains(leaves[k]));
            assert(entries.contains(leaves[k]));
            let j = choose|j: int| 0 <= j < entries.len() && entries[j] == leaves[k];
            lemma_union_of_contains(entries, entries.len() as int, j);
        }
    }
}

/// A bound on the height of the tree over `total` entries: of every two or
/// more entries, each side gets at least the minimum share, and so at most
/// the rest.
pub open spec fn height_bound(total: nat) -> nat
    decreases total,
{
    if total <= 1 {
        0
    } else {
        1 + height_bound((total - minimum_share(total as int)) as nat)
    }
}

/// More entries never have a smaller bound on the height of their tree.
pub proof fn lemma_height_bound_grows(fewer: nat, more: nat)
    requires
        fewer <= more,
    ensures
        height_bound(fewer) <= height_bound(more),
    decreases more,
{
    if fewer > 1 {
        lemma_height_bound_grows(
            (fewer - minimum_share(fewer as int)) as nat,
            (more - minimum_share(more as int)) as nat,
        );
    }
}

/// The bound on the height of a tree is less than the number of its
/// entries.
pub proof fn lemma_height_bound_is_below_total(total: nat)
    requires
        total >= 1,
    ensures
        height_bound(total) < total,
    decreases total,
{
    if total > 1 {
        lemma_height_bound_is_below_total((total - minimum_share(total as int)) as nat);
    }
}

/// The tree over one or more entries is no higher than `height_bound` says:
/// the depth of every walk of it is bounded by the number of entries alone,
/// whatever their boxes.
pub proof fn lemma_build_height(entries: Seq<Entry>)
    requires
        entries.len() >= 1,
    ensures
        build(entries) is Some,
        build(entries).unwrap().height() <= height_bound(entries.len()),
    decreases entries.len(),
{
    lemma_build(entries);
    if entries.len() > 1 {
        lemma_balanced_shares(entries);
        let (left, right) = balanced_shares(entries);
        lemma_build_height(left);
        lemma_build_height(right);
        let rest = (entries.len() - minimum_share(entries.len() as int)) as nat;
        lemma_height_bound_grows(left.len(), rest);
        lemma_height_bound_grows(right.len(), rest);
    }
}

/// A walk of a well-formed tree finds an index exactly when a leaf with that
/// index has a box that overlaps the query.
pub proof fn lemma_overlapping_finds_leaves(
    tree: BoundingVolumeHierarchyTree,
    query: BoundingVolume,
    index: usize,
)
    requires
        tree.wf(),
    ensures
        tree.overlapping(query).contains(index) <==> tree.has_overlapping_leaf(query, index),
    decreases tree,
{
    let found = tree.overlapping(query);
    let leaves = tree.leaves();
    match tree {
        BoundingVolumeHierarchyTree::Leaf(volume, own) => {
            if found.contains(index) {
                let i = choose|i: int| 0 <= i < found.len() && found[i] == index;
                assert(leaves[0].0 == index && leaves[0].1.is_intersecting_spec(query));
            }
            if exists|k: int|
                0 <= k < leaves.len() && (#[trigger] leaves[k]).0 == index
                    && leaves[k].1.is_intersecting_spec(query) {
                assert(found[0] == index);
            }
        },
        BoundingVolumeHierarchyTree::Node(volume, left, right) => {
            lemma_overlapping_finds_leaves(*left, query, index);
            lemma_overlapping_finds_leaves(*right, query, index);
            let left_found = left.overlapping(query);
            let right_found = right.overlapping(query);
            let left_leaves = left.leaves();
            let right_leaves = right.leaves();
            if found.contains(index) {
                let i = choose|i: int| 0 <= i < found.len() && found[i] == index;
                if i < left_found.len() {
                    assert(left_found[i] == index);
                    assert(left_found.contains(index));
                    let k = choose|k: int|
                        0 <= k < left_leaves.len() && (#[trigger] left_leaves[k]).0 == index
                            && left_leaves[k].1.is_intersecting_spec(query);
                    assert(leaves[k] == left_leaves[k]);
                } else {
                    assert(right_found[i - left_found.len()] == index);
                    assert(right_found.contains(index));
                    let k = choose|k: int|
                        0 <= k < right_leaves.len() && (#[trigger] right_leaves[k]).0 == index
                            && right_leaves[k].1.is_intersecting_spec(query);
                    assert(leaves[left_leaves.len() + k] == right_leaves[k]);
                }
            }
            if exists|k: int|
                0 <= k < leaves.len() && (#[trigger] leaves[k]).0 == index
                    && leaves[k].1.is_intersecting_spec(query) {
                let k = choose|k: int|
                    0 <= k < leaves.len() && (#[trigger] leaves[k]).0 == index
                        && leaves[k].1.is_intersecting_spec(query);
                assert(volume.contains(leaves[k].1));
                lemma_intersecting_inner_intersects_outer(volume, leaves[k].1, query);
                if k < left_leaves.len() {
                    assert(left_leaves[k] == leaves[k]);
                    assert(left_found.contains(index));
                    let i = choose|i: int| 0 <= i < left_found.len() && left_found[i] == index;
                    assert(found[i] == index);
                } else {
                    assert(right_leaves[k - left_leaves.len()] == leaves[k]);
                    assert(right_found.contains(index));
                    let i = choose|i: int| 0 <= i < right_found.len() && right_found[i] == index;
                    assert(found[left_found.len() + i] == index);
                }
            }
        },
    }
}

/// A walk of the tree built over a list of boxes finds the same indices as
/// a test of every box in the list against the query.
pub proof fn lemma_overlapping_is_brute_force(entries: Seq<Entry>, query: BoundingVolume)
    requires
        entries.len() >= 1,
    ensures
        build(entries) is Some,
        build(entries).unwrap().overlapping(query).to_set() == brute_force_overlapping(
            entries,
            query,
        ),
{
    lemma_build(entries);
    let tree = build(entries).unwrap();
    let found = tree.overlapping(query).to_set();
    let expected = brute_force_overlapping(entries, query);
    assert forall|index: usize| found.contains(index) <==> expected.contains(index) by {
        lemma_overlapping_finds_leaves(tree, query, index);
        if found.contains(index) {
            let k = choose|k: int|
                0 <= k < tree.leaves().len() && (#[trigger] tree.leaves()[k]).0 == index
                    && tree.leaves()[k].1.is_intersecting_spec(query);
            assert(tree.leaves().contains(tree.leaves()[k]));
            assert(entries.contains(tree.leaves()[k]));
            let j = choose|j: int| 0 <= j < entries.len() && entries[j] == tree.leaves()[k];
            assert(entries[j].0 == index && entries[j].1.is_intersecting_spec(query));
        }
        if expected.contains(index) {
            let j = choose|j: int|
                0 <= j < entries.len() && (#[trigger] entries[j]).0 == index
                    && entries[j].1.is_intersecting_spec(query);
            assert(entries.contains(entries[j]));
            assert(tree.leaves().contains(entries[j]));
            let k = choose|k: int| 0 <= k < tree.leaves().len() && tree.leaves()[k] == entries[j];
            assert(tree.leaves()[k].0 == index && tree.leaves()[k].1.is_intersecting_spec(query));
        }
    }
    assert(found =~= expected);
}

/// The point halfway between `low` and `high`.
fn mid_point_of(low: Fixed, high: Fixed) -> (r: Fixed)
    ensures
        r == mid_point(low, high),
{
    low.add(high).div(Fixed::from_int(2))
}

/// Whether `volume` goes to the left side of a split of `overall`.
fn is_left_of(volume: &BoundingVolume, overall: &BoundingVolume, is_main_axis_x: bool) -> (r: bool)
    requires
        is_main_axis_x == splits_on_x(*overall),
    ensures
        r == goes_left(*volume, *overall),
{
    if is_main_axis_x {
        mid_point_of(volume.top_left.x, volume.bottom_right.x).raw < mid_point_of(
            overall.top_left.x,
            overall.bottom_right.x,
        ).raw
    } else {
        mid_point_of(volume.top_left.y, volume.bottom_right.y).raw < mid_point_of(
            overall.top_left.y,
            overall.bottom_right.y,
        ).raw
    }
}

impl BoundingVolumeHierarchyTree {
    /// The box held at the root.
    pub open spec fn volume(self) -> BoundingVolume {
        match self {
            BoundingVolumeHierarchyTree::Leaf(volume, _) => volume,
            BoundingVolumeHierarchyTree::Node(volume, _, _) => volume,
        }
    }

    /// The number of nodes on the longest way from the root down to a leaf,
    /// the leaf not counted.
    pub open spec fn height(self) -> nat
        decreases self,
    {
        match self {
            BoundingVolumeHierarchyTree::Leaf(_, _) => 0,
            BoundingVolumeHierarchyTree::Node(_, left, right) => {
                if left.height() >= right.height() {
                    1 + left.height()
                } else {
                    1 + right.height()
                }
            },
        }
    }

    /// The indexed boxes at the leaves, from left to right.
    pub open spec fn leaves(self) -> Seq<Entry>
        decreases self,
    {
        match self {
            BoundingVolumeHierarchyTree::Leaf(volume, index) => seq![(index, volume)],
            BoundingVolumeHierarchyTree::Node(_, left, right) => left.leaves() + right.leaves(),
        }
    }

    /// Whether a leaf with the given index has a box that overlaps `query`.
    pub open spec fn has_overlapping_leaf(self, query: BoundingVolume, index: usize) -> bool {
        exists|k: int|
            0 <= k < self.leaves().len() && (#[trigger] self.leaves()[k]).0 == index
                && self.leaves()[k].1.is_intersecting_spec(query)
    }

    /// Whether the box of every inner node contains the boxes of all leaves
    /// beneath it.
    pub open spec fn wf(self) -> bool
        decreases self,
    {
        match self {
            BoundingVolumeHierarchyTree::Leaf(_, _) => true,
            BoundingVolumeHierarchyTree::Node(volume, left, right) => {
                &&& left.wf()
                &&& right.wf()
                &&& forall|k: int|
                    0 <= k < self.leaves().len() ==> volume.contains((#[trigger] self.leaves()[k]).1)
            },
        }
    }

    /// The indices found by a depth-first walk, left before right, that
    /// turns back at every node whose box does not overlap `query`.
    pub open spec fn overlapping(self, query: BoundingVolume) -> Seq<usize>
        decreases self,
    {
        match self {
            BoundingVolumeHierarchyTree::Leaf(volume, index) => {
                if volume.is_intersecting_spec(query) {
                    seq![index]
                } else {
                    Seq::empty()
                }
            },
            BoundingVolumeHierarchyTree::Node(volume, left, right) => {
                if volume.is_intersecting_spec(query) {
                    left.overlapping(query) + right.overlapping(query)
                } else {
                    Seq::empty()
                }
            },
        }
    }

    /// Builds the tree over `bounding_volumes`. There is none over an empty
    /// list, and a well-formed one over every other.
    pub fn new(bounding_volumes: &[Entry]) -> (r: Option<Self>)
        ensures
            r == build(bounding_volumes@),
            r is None <==> bounding_volumes@.len() == 0,
            r matches Some(tree) ==> tree.wf() && tree.leaves().len() == bounding_volumes@.len(),
        decreases bounding_volumes@.len(),
    {
        let total: usize = bounding_volumes.len();
        if total == 0 {
            return None;
        }
        proof {
            lemma_build(bounding_volumes@);
        }
        if total == 1 {
            return Some(
                BoundingVolumeHierarchyTree::Leaf(bounding_volumes[0].1, bounding_volumes[0].0),
            );
        }
        let ghost entries = bounding_volumes@;
        let mut overall: BoundingVolume = bounding_volumes[0].1;
        let mut k: usize = 1;
        while k < total
            invariant
                1 <= k <= total,
                total == bounding_volumes@.len(),
                overall == union_of(bounding_volumes@, k as int),
            decreases total - k,
        {
            overall = overall.union(&bounding_volumes[k].1);
            k = k + 1;
        }
        let width: Fixed = overall.bottom_right.x.sub(overall.top_left.x);
        let height: Fixed = overall.bottom_right.y.sub(overall.top_left.y);
        let is_main_axis_x: bool = width.raw > height.raw;

        let mut left_bounding_volumes: Vec<Entry> = Vec::new();
        let mut right_bounding_volumes: Vec<Entry> = Vec::new();
        k = 0;
        while k < total
            invariant
                0 <= k <= total,
                total == bounding_volumes@.len(),
                is_main_axis_x == splits_on_x(overall),
                left_bounding_volumes@ == left_share(bounding_volumes@, overall, k as int),
                right_bounding_volumes@ == right_share(bounding_volumes@, overall, k as int),
            decreases total - k,
        {
            let entry: Entry = bounding_volumes[k];
            if is_left_of(&entry.1, &overall, is_main_axis_x) {
                left_bounding_volumes.push(entry);
            } else {
                right_bounding_volumes.push(entry);
            }
            k = k + 1;
        }

        let threshold: usize = if total / 16 > 1 {
            total / 16
        } else {
            1
        };
        let ghost left_0 = left_bounding_volumes@;
        let ghost right_0 = right_bounding_volumes@;
        proof {
            lemma_shares(entries, overall, total as int);
        }
        while left_bounding_volumes.len() < threshold
            invariant
                left_bounding_volumes@.len() + right_bounding_volumes@.len() == total,
                2 * threshold <= total,
                top_up(left_bounding_volumes@, right_bounding_volumes@, threshold as int) == top_up(
                    left_0,
                    right_0,
                    threshold as int,
                ),
            decreases right_bounding_volumes@.len(),
        {
            let moved: Entry = right_bounding_volumes.pop()?;
            left_bounding_volumes.push(moved);
        }
        let ghost left_1 = left_bounding_volumes@;
        let ghost right_1 = right_bounding_volumes@;
        while right_bounding_volumes.len() < threshold
            invariant
                left_bounding_volumes@.len() + right_bounding_volumes@.len() == total,
                2 * threshold <= total,
                top_up(right_bounding_volumes@, left_bounding_volumes@, threshold as int) == top_up(
                    right_1,
                    left_1,
                    threshold as int,
                ),
            decreases left_bounding_volumes@.len(),
        {
            let moved: Entry = left_bounding_volumes.pop()?;
            right_bounding_volumes.push(moved);
        }
        proof {
            lemma_balanced_shares(entries);
            assert(balanced_shares(entries) == (left_bounding_volumes@, right_bounding_volumes@));
        }
        let left_tree: Self = Self::new(left_bounding_volumes.as_slice())?;
        let right_tree: Self = Self::new(right_bounding_volumes.as_slice())?;
        Some(BoundingVolumeHierarchyTree::Node(overall, Box::new(left_tree), Box::new(right_tree)))
    }

    /// Appends to `result` the indices that a walk for `query` finds.
    fn collect_overlapping(&self, query: &BoundingVolume, result: &mut Vec<usize>)
        ensures
            final(result)@ == old(result)@ + self.overlapping(*query),
        decreases self,
    {
        match self {
            BoundingVolumeHierarchyTree::Leaf(volume, index) => {
                if volume.is_intersecting(query) {
                    result.push(*index);
                }
            },
            BoundingVolumeHierarchyTree::Node(volume, left, right) => {
                if volume.is_intersecting(query) {
                    left.collect_overlapping(query, result);
                    right.collect_overlapping(query, result);
                }
            },
        }
    }

    /// The indices of the leaves that a depth-first walk reaches without
    /// entering a node whose box does not overlap `query_bounding_volume`,
    /// and whose own box overlaps it.
    pub fn get_overlapping_bodies(&self, query_bounding_volume: &BoundingVolume) -> (r: Vec<usize>)
        ensures
            r@ == self.overlapping(*query_bounding_volume),
            self.wf() ==> forall|index: usize|
                #[trigger] r@.contains(index) <==> self.has_overlapping_leaf(
                    *query_bounding_volume,
                    index,
                ),
    {
        let mut result: Vec<usize> = Vec::new();
        self.collect_overlapping(query_bounding_volume, &mut result);
        proof {
            if self.wf() {
                assert forall|index: usize| #[trigger]
                    result@.contains(index) <==> self.has_overlapping_leaf(
                        *query_bounding_volume,
                        index,
                    ) by {
                    lemma_overlapping_finds_leaves(*self, *query_bounding_volume, index);
                }
            }
        }
        result
    }
}

} // verus!
