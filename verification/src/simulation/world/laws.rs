//! What a step changes and what it keeps.

use super::hierarchy::{build, lemma_build, lemma_overlapping_finds_leaves};
use super::solver::{
    correct_positions_spec, handle_collision_spec, handle_collision_static_spec,
};
use super::{
    accelerate, after_statics, apply_correction, apply_gravity_spec, apply_impulse, contacts_among,
    contacts_upto, correct_pass, detect_dynamic_collisions_spec, entries_of, handle_collisions_spec,
    integrate_bodies_spec, lemma_candidate_in_range, pairs_in_range, resolve_pass,
    resolve_static_spec, resolve_velocities, stored_contact, tick_spec, BoundingVolumeHierarchyTree,
    ContactPair, WorldView, SOLVER_ITERATIONS,
};
use crate::body::dynamic_body::base::lemma_integrate_zero;
use crate::body::{BaseDynamicBody, DynamicBody, StaticBody};
use crate::bounding_volume::BoundingVolume;
use crate::fixed::{lemma_mul_by_zero, Fixed};
use crate::simulation::collisions::laws::{
    displacement_fits, lemma_fast_check_lets_penetrating_bodies_pass,
    lemma_penetrating_bodies_have_overlapping_boxes, penetrate,
};
use crate::simulation::collisions::{generate_contact_dynamic_spec, Contact};
use crate::vec2::Vec2D;
use vstd::prelude::*;

verus! {

/// Whether `after` is `before` but for its position and its velocity.
pub open spec fn same_shape(after: DynamicBody, before: DynamicBody) -> bool {
    after == before.with_body(
        BaseDynamicBody {
            position: after.body().position,
            velocity: after.body().velocity,
            ..before.body()
        },
    )
}

/// Whether `after` is `before` but for its velocity.
pub open spec fn only_velocity_differs(after: DynamicBody, before: DynamicBody) -> bool {
    after == before.with_body(BaseDynamicBody { velocity: after.body().velocity, ..before.body() })
}

/// Whether `after` is `before` but for its position.
pub open spec fn only_position_differs(after: DynamicBody, before: DynamicBody) -> bool {
    after == before.with_body(BaseDynamicBody { position: after.body().position, ..before.body() })
}

/// Whether the bodies of `after` are those of `before`, one for one, but
/// for their velocities.
pub open spec fn only_velocities_differ(after: Seq<DynamicBody>, before: Seq<DynamicBody>) -> bool {
    &&& after.len() == before.len()
    &&& forall|k: int| 0 <= k < before.len() ==> only_velocity_differs(#[trigger] after[k], before[k])
}

/// Whether the bodies of `after` are those of `before`, one for one, but
/// for their positions.
pub open spec fn only_positions_differ(after: Seq<DynamicBody>, before: Seq<DynamicBody>) -> bool {
    &&& after.len() == before.len()
    &&& forall|k: int| 0 <= k < before.len() ==> only_position_differs(#[trigger] after[k], before[k])
}

/// Whether the bodies of `after` are those of `before`, one for one, but
/// for their positions and velocities.
pub open spec fn same_shapes(after: Seq<DynamicBody>, before: Seq<DynamicBody>) -> bool {
    &&& after.len() == before.len()
    &&& forall|k: int| 0 <= k < before.len() ==> same_shape(#[trigger] after[k], before[k])
}

/// Gravity that acts for no time changes nothing.
pub proof fn lemma_gravity_without_time(bodies: Seq<DynamicBody>, gravity: Vec2D)
    ensures
        apply_gravity_spec(bodies, gravity, Fixed { raw: 0 }) == bodies,
{
    let change = gravity.mul_spec(Fixed { raw: 0 });
    assert(gravity.x.raw * 0 == 0);
    assert(gravity.y.raw * 0 == 0);
    assert(change == crate::vec2::spec_zero());
    assert forall|k: int| 0 <= k < bodies.len() implies accelerate(bodies[k], change)
        == bodies[k] by {}
    assert(apply_gravity_spec(bodies, gravity, Fixed { raw: 0 }) =~= bodies);
}

/// Bodies that move for no time stay where they are.
pub proof fn lemma_integration_without_time(bodies: Seq<DynamicBody>)
    ensures
        integrate_bodies_spec(bodies, Fixed { raw: 0 }) == bodies,
{
    assert forall|k: int| 0 <= k < bodies.len() implies bodies[k].with_body(
        bodies[k].body().integrate_spec(Fixed { raw: 0 }),
    ) == bodies[k] by {
        lemma_integrate_zero(bodies[k].body());
    }
    assert(integrate_bodies_spec(bodies, Fixed { raw: 0 }) =~= bodies);
}

/// A step of no time does to the bodies what the handling of their contacts
/// does, and nothing else: gravity adds nothing to any velocity, and no
/// body moves.
pub proof fn lemma_tick_without_time(world: WorldView)
    ensures
        tick_spec(world, Fixed { raw: 0 }) == (WorldView {
            dynamic_bodies: handle_collisions_spec(world.static_bodies, world.dynamic_bodies),
            ..world
        }),
{
    lemma_gravity_without_time(world.dynamic_bodies, world.gravity);
    lemma_integration_without_time(
        handle_collisions_spec(world.static_bodies, world.dynamic_bodies),
    );
}

/// Gravity changes velocities only.
pub proof fn lemma_gravity_changes_velocities_only(
    bodies: Seq<DynamicBody>,
    gravity: Vec2D,
    elapsed: Fixed,
)
    ensures
        only_velocities_differ(apply_gravity_spec(bodies, gravity, elapsed), bodies),
{
}

/// Movement changes positions only.
pub proof fn lemma_integration_changes_positions_only(bodies: Seq<DynamicBody>, elapsed: Fixed)
    ensures
        only_positions_differ(integrate_bodies_spec(bodies, elapsed), bodies),
{
}

/// The contacts with static bodies change nothing of a moving body but its
/// position and its velocity.
pub proof fn lemma_after_statics_keeps_shape(statics: Seq<StaticBody>, count: int, body: DynamicBody)
    ensures
        same_shape(after_statics(statics, count, body), body),
    decreases count,
{
    if count > 0 {
        lemma_after_statics_keeps_shape(statics, count - 1, body);
    }
}

/// The impulse of a contact changes velocities only.
pub proof fn lemma_impulse_changes_velocities_only(
    this: DynamicBody,
    that: DynamicBody,
    contact: Contact,
)
    ensures
        only_velocity_differs(handle_collision_spec(this, that, contact).0, this),
        only_velocity_differs(handle_collision_spec(this, that, contact).1, that),
{
}

/// The correction of a contact changes positions only.
pub proof fn lemma_correction_changes_positions_only(
    this: DynamicBody,
    that: DynamicBody,
    contact: Contact,
)
    ensures
        only_position_differs(correct_positions_spec(this, that, contact).0, this),
        only_position_differs(correct_positions_spec(this, that, contact).1, that),
{
}

/// A pass of impulses changes velocities only.
pub proof fn lemma_resolve_pass_changes_velocities_only(
    bodies: Seq<DynamicBody>,
    contacts: Seq<ContactPair>,
    count: int,
)
    requires
        pairs_in_range(contacts, bodies.len() as int),
        count <= contacts.len(),
    ensures
        only_velocities_differ(resolve_pass(bodies, contacts, count), bodies),
    decreases count,
{
    if count > 0 {
        lemma_resolve_pass_changes_velocities_only(bodies, contacts, count - 1);
        let before = resolve_pass(bodies, contacts, count - 1);
        let pair = contacts[count - 1];
        lemma_impulse_changes_velocities_only(
            before[pair.1 as int],
            before[pair.2 as int],
            pair.0,
        );
        let after = apply_impulse(before, pair);
        assert forall|k: int| 0 <= k < bodies.len() implies only_velocity_differs(
            #[trigger] after[k],
            bodies[k],
        ) by {
            assert(only_velocity_differs(before[k], bodies[k]));
        }
    }
}

/// Any number of passes of impulses changes velocities only.
pub proof fn lemma_resolve_velocities_changes_velocities_only(
    bodies: Seq<DynamicBody>,
    contacts: Seq<ContactPair>,
    rounds: int,
)
    requires
        pairs_in_range(contacts, bodies.len() as int),
    ensures
        only_velocities_differ(resolve_velocities(bodies, contacts, rounds), bodies),
    decreases rounds,
{
    if rounds > 0 {
        lemma_resolve_velocities_changes_velocities_only(bodies, contacts, rounds - 1);
        let before = resolve_velocities(bodies, contacts, rounds - 1);
        lemma_resolve_pass_changes_velocities_only(before, contacts, contacts.len() as int);
        let after = resolve_pass(before, contacts, contacts.len() as int);
        assert forall|k: int| 0 <= k < bodies.len() implies only_velocity_differs(
            #[trigger] after[k],
            bodies[k],
        ) by {
            assert(only_velocity_differs(before[k], bodies[k]));
        }
    }
}

/// A pass of corrections changes positions only: it never alters a
/// velocity.
pub proof fn lemma_correct_pass_changes_positions_only(
    bodies: Seq<DynamicBody>,
    contacts: Seq<ContactPair>,
    count: int,
)
    requires
        pairs_in_range(contacts, bodies.len() as int),
        count <= contacts.len(),
    ensures
        only_positions_differ(correct_pass(bodies, contacts, count), bodies),
    decreases count,
{
    if count > 0 {
        lemma_correct_pass_changes_positions_only(bodies, contacts, count - 1);
        let before = correct_pass(bodies, contacts, count - 1);
        let pair = contacts[count - 1];
        lemma_correction_changes_positions_only(
            before[pair.1 as int],
            before[pair.2 as int],
            pair.0,
        );
        let after = apply_correction(before, pair);
        assert forall|k: int| 0 <= k < bodies.len() implies only_position_differs(
            #[trigger] after[k],
            bodies[k],
        ) by {
            assert(only_position_differs(before[k], bodies[k]));
        }
    }
}

/// The contacts stored for one body name that body first and a body of
/// greater index second.
pub proof fn lemma_contacts_among_in_range(
    bodies: Seq<DynamicBody>,
    i: usize,
    candidates: Seq<usize>,
    count: int,
)
    requires
        count <= candidates.len(),
        forall|c: int| 0 <= c < candidates.len() ==> (#[trigger] candidates[c]) < bodies.len(),
    ensures
        pairs_in_range(contacts_among(bodies, i, candidates, count), bodies.len() as int),
        forall|k: int|
            0 <= k < contacts_among(bodies, i, candidates, count).len() ==> (
            #[trigger] contacts_among(bodies, i, candidates, count)[k]).1 == i,
    decreases count,
{
    if count > 0 {
        lemma_contacts_among_in_range(bodies, i, candidates, count - 1);
        assert(candidates[count - 1] < bodies.len());
    }
}

/// The contacts stored with the help of the tree over the boxes of the
/// bodies name bodies only.
pub proof fn lemma_contacts_upto_in_range(
    bodies: Seq<DynamicBody>,
    tree: BoundingVolumeHierarchyTree,
    count: int,
)
    requires
        build(entries_of(bodies)) == Some(tree),
        count <= bodies.len(),
    ensures
        pairs_in_range(contacts_upto(bodies, tree, count), bodies.len() as int),
    decreases count,
{
    if count > 0 {
        lemma_contacts_upto_in_range(bodies, tree, count - 1);
        let query = bodies[count - 1].to_bounding_volume_spec();
        let candidates = tree.overlapping(query);
        assert forall|c: int| 0 <= c < candidates.len() implies (#[trigger] candidates[c])
            < bodies.len() by {
            assert(candidates.contains(candidates[c]));
            lemma_candidate_in_range(bodies, query, candidates[c]);
        }
        lemma_contacts_among_in_range(
            bodies,
            (count - 1) as usize,
            candidates,
            candidates.len() as int,
        );
    }
}

/// Every stored contact names two bodies, the first by the smaller index.
pub proof fn lemma_detected_pairs_in_range(bodies: Seq<DynamicBody>)
    ensures
        pairs_in_range(detect_dynamic_collisions_spec(bodies), bodies.len() as int),
{
    match build(entries_of(bodies)) {
        Some(tree) => {
            lemma_contacts_upto_in_range(bodies, tree, bodies.len() as int);
        },
        None => {},
    }
}

/// The handling of contacts keeps every body's shape, restitution and
/// mass, and neither adds nor removes a body.
pub proof fn lemma_handle_collisions_keeps_shapes(
    statics: Seq<StaticBody>,
    bodies: Seq<DynamicBody>,
)
    ensures
        same_shapes(handle_collisions_spec(statics, bodies), bodies),
{
    let settled = resolve_static_spec(statics, bodies);
    assert forall|k: int| 0 <= k < bodies.len() implies same_shape(
        #[trigger] settled[k],
        bodies[k],
    ) by {
        lemma_after_statics_keeps_shape(statics, statics.len() as int, bodies[k]);
    }
    let contacts = detect_dynamic_collisions_spec(settled);
    lemma_detected_pairs_in_range(settled);
    let resolved = resolve_velocities(settled, contacts, SOLVER_ITERATIONS as int);
    lemma_resolve_velocities_changes_velocities_only(settled, contacts, SOLVER_ITERATIONS as int);
    let corrected = correct_pass(resolved, contacts, contacts.len() as int);
    lemma_correct_pass_changes_positions_only(resolved, contacts, contacts.len() as int);
    assert forall|k: int| 0 <= k < bodies.len() implies same_shape(
        #[trigger] corrected[k],
        bodies[k],
    ) by {
        assert(only_velocity_differs(resolved[k], settled[k]));
        assert(only_position_differs(corrected[k], resolved[k]));
        assert(same_shape(settled[k], bodies[k]));
    }
}

/// A step keeps the static bodies and gravity as they are, neither adds
/// nor removes a moving body, and keeps the shape, the restitution and the
/// mass of each.
pub proof fn lemma_tick_keeps_shapes(world: WorldView, elapsed: Fixed)
    ensures
        tick_spec(world, elapsed).static_bodies == world.static_bodies,
        tick_spec(world, elapsed).gravity == world.gravity,
        same_shapes(tick_spec(world, elapsed).dynamic_bodies, world.dynamic_bodies),
{
    let pulled = apply_gravity_spec(world.dynamic_bodies, world.gravity, elapsed);
    lemma_gravity_changes_velocities_only(world.dynamic_bodies, world.gravity, elapsed);
    let handled = handle_collisions_spec(world.static_bodies, pulled);
    lemma_handle_collisions_keeps_shapes(world.static_bodies, pulled);
    let moved = integrate_bodies_spec(handled, elapsed);
    lemma_integration_changes_positions_only(handled, elapsed);
    assert forall|k: int| 0 <= k < world.dynamic_bodies.len() implies same_shape(
        #[trigger] moved[k],
        world.dynamic_bodies[k],
    ) by {
        assert(only_velocity_differs(pulled[k], world.dynamic_bodies[k]));
        assert(same_shape(handled[k], pulled[k]));
        assert(only_position_differs(moved[k], handled[k]));
    }
}

/// A step of a world of well-formed bodies leaves every body well formed.
pub proof fn lemma_tick_keeps_bodies_well_formed(world: WorldView, elapsed: Fixed)
    requires
        world.wf(),
    ensures
        tick_spec(world, elapsed).wf(),
{
    lemma_tick_keeps_shapes(world, elapsed);
    let after = tick_spec(world, elapsed).dynamic_bodies;
    assert forall|k: int| 0 <= k < after.len() implies (#[trigger] after[k]).wf() by {
        assert(same_shape(after[k], world.dynamic_bodies[k]));
        assert(world.dynamic_bodies[k].wf());
    }
}

/// Whether a contact is stored for the pair of bodies that it names, under
/// their indices, the smaller first, and the boxes of the two overlap.
pub open spec fn is_contact_of_overlapping_boxes(bodies: Seq<DynamicBody>, pair: ContactPair) -> bool {
    &&& pair.1 < pair.2 < bodies.len()
    &&& bodies[pair.2 as int].to_bounding_volume_spec().is_intersecting_spec(
        bodies[pair.1 as int].to_bounding_volume_spec(),
    )
    &&& stored_contact(bodies, pair.1, pair.2) == Some(pair)
}

/// Among the contacts stored for one body with some candidates are those,
/// and only those, that are stored for it with one of the candidates.
pub proof fn lemma_contacts_among_holds(
    bodies: Seq<DynamicBody>,
    i: usize,
    candidates: Seq<usize>,
    count: int,
    pair: ContactPair,
)
    requires
        count <= candidates.len(),
    ensures
        contacts_among(bodies, i, candidates, count).contains(pair) <==> (exists|m: int|
            0 <= m < count && stored_contact(bodies, i, #[trigger] candidates[m]) == Some(pair)),
    decreases count,
{
    if count > 0 {
        lemma_contacts_among_holds(bodies, i, candidates, count - 1, pair);
        let before = contacts_among(bodies, i, candidates, count - 1);
        let after = contacts_among(bodies, i, candidates, count);
        let last = stored_contact(bodies, i, candidates[count - 1]);
        if after.contains(pair) {
            let k = choose|k: int| 0 <= k < after.len() && after[k] == pair;
            if k < before.len() {
                assert(before[k] == pair);
                assert(before.contains(pair));
                let m = choose|m: int|
                    0 <= m < count - 1 && stored_contact(bodies, i, #[trigger] candidates[m])
                        == Some(pair);
                assert(0 <= m < count && stored_contact(bodies, i, candidates[m]) == Some(pair));
            } else {
                assert(last == Some(pair));
                assert(stored_contact(bodies, i, candidates[count - 1]) == Some(pair));
            }
        }
        if exists|m: int|
            0 <= m < count && stored_contact(bodies, i, #[trigger] candidates[m]) == Some(pair) {
            let m = choose|m: int|
                0 <= m < count && stored_contact(bodies, i, #[trigger] candidates[m]) == Some(pair);
            if m == count - 1 {
                assert(after == before.push(pair));
                assert(after[before.len() as int] == pair);
            } else {
                assert(before.contains(pair));
                let k = choose|k: int| 0 <= k < before.len() && before[k] == pair;
                assert(after[k] == pair);
            }
        }
    } else {
        let after = contacts_among(bodies, i, candidates, count);
        assert(after.len() == 0);
    }
}

/// Among the contacts stored for the first bodies are those, and only
/// those, that are stored for one of them with one of its candidates.
pub proof fn lemma_contacts_upto_holds(
    bodies: Seq<DynamicBody>,
    tree: BoundingVolumeHierarchyTree,
    count: int,
    pair: ContactPair,
)
    requires
        count <= bodies.len() <= usize::MAX,
    ensures
        contacts_upto(bodies, tree, count).contains(pair) <==> (pair.1 < count
            && tree.overlapping(bodies[pair.1 as int].to_bounding_volume_spec()).contains(pair.2)
            && stored_contact(bodies, pair.1, pair.2) == Some(pair)),
    decreases count,
{
    if count > 0 {
        lemma_contacts_upto_holds(bodies, tree, count - 1, pair);
        let i = (count - 1) as usize;
        let candidates = tree.overlapping(bodies[count - 1].to_bounding_volume_spec());
        let before = contacts_upto(bodies, tree, count - 1);
        let among = contacts_among(bodies, i, candidates, candidates.len() as int);
        let after = contacts_upto(bodies, tree, count);
        assert(after == before + among);
        lemma_contacts_among_holds(bodies, i, candidates, candidates.len() as int, pair);
        if after.contains(pair) {
            let k = choose|k: int| 0 <= k < after.len() && after[k] == pair;
            if k < before.len() {
                assert(before[k] == pair);
                assert(before.contains(pair));
            } else {
                assert(among[k - before.len()] == pair);
                assert(among.contains(pair));
                let m = choose|m: int|
                    0 <= m < candidates.len() && stored_contact(
                        bodies,
                        i,
                        #[trigger] candidates[m],
                    ) == Some(pair);
                assert(candidates.contains(candidates[m]));
            }
        }
        if pair.1 < count && tree.overlapping(
            bodies[pair.1 as int].to_bounding_volume_spec(),
        ).contains(pair.2) && stored_contact(bodies, pair.1, pair.2) == Some(pair) {
            if pair.1 < count - 1 {
                assert(before.contains(pair));
                let k = choose|k: int| 0 <= k < before.len() && before[k] == pair;
                assert(after[k] == pair);
            } else {
                let m = choose|m: int| 0 <= m < candidates.len() && candidates[m] == pair.2;
                assert(stored_contact(bodies, i, candidates[m]) == Some(pair));
                assert(among.contains(pair));
                let k = choose|k: int| 0 <= k < among.len() && among[k] == pair;
                assert(after[before.len() + k] == pair);
            }
        }
    } else {
        assert(contacts_upto(bodies, tree, count).len() == 0);
    }
}

/// The candidates that the tree over the boxes of the bodies finds for a
/// box are the indices of the bodies whose boxes overlap it.
pub proof fn lemma_candidates_are_overlapping_bodies(
    bodies: Seq<DynamicBody>,
    query: BoundingVolume,
    j: usize,
)
    requires
        1 <= bodies.len() <= usize::MAX,
    ensures
        build(entries_of(bodies)) is Some,
        build(entries_of(bodies)).unwrap().overlapping(query).contains(j) <==> (j < bodies.len()
            && bodies[j as int].to_bounding_volume_spec().is_intersecting_spec(query)),
{
    let entries = entries_of(bodies);
    lemma_build(entries);
    let tree = build(entries).unwrap();
    lemma_overlapping_finds_leaves(tree, query, j);
    let leaves = tree.leaves();
    if tree.overlapping(query).contains(j) {
        let k = choose|k: int|
            0 <= k < leaves.len() && (#[trigger] leaves[k]).0 == j
                && leaves[k].1.is_intersecting_spec(query);
        assert(leaves.contains(leaves[k]));
        assert(entries.contains(leaves[k]));
        let m = choose|m: int| 0 <= m < entries.len() && entries[m] == leaves[k];
        assert(m == j);
    }
    if j < bodies.len() && bodies[j as int].to_bounding_volume_spec().is_intersecting_spec(query) {
        assert(entries[j as int] == (j, bodies[j as int].to_bounding_volume_spec()));
        assert(entries.contains(entries[j as int]));
        assert(leaves.contains(entries[j as int]));
        let k = choose|k: int| 0 <= k < leaves.len() && leaves[k] == entries[j as int];
        assert(leaves[k].0 == j && leaves[k].1.is_intersecting_spec(query));
    }
}

/// The stored contacts are those, and only those, of the pairs of bodies
/// whose boxes overlap, which pass the cheap test, and whose contact has a
/// negative distance: the tree finds what a test of every pair would.
pub proof fn lemma_detection_is_brute_force(bodies: Seq<DynamicBody>, pair: ContactPair)
    requires
        bodies.len() <= usize::MAX,
    ensures
        detect_dynamic_collisions_spec(bodies).contains(pair) <==> is_contact_of_overlapping_boxes(
            bodies,
            pair,
        ),
{
    if bodies.len() == 0 {
        assert(entries_of(bodies).len() == 0);
        assert(detect_dynamic_collisions_spec(bodies).len() == 0);
    } else {
        lemma_build(entries_of(bodies));
        let tree = build(entries_of(bodies)).unwrap();
        lemma_contacts_upto_holds(bodies, tree, bodies.len() as int, pair);
        if pair.1 < bodies.len() {
            lemma_candidates_are_overlapping_bodies(
                bodies,
                bodies[pair.1 as int].to_bounding_volume_spec(),
                pair.2,
            );
        }
    }
}

/// Whether the bodies are few enough to be counted, every one is well
/// formed, and the way between the centres of any two can be told without
/// saturation.
pub open spec fn bodies_fit(bodies: Seq<DynamicBody>) -> bool {
    &&& bodies.len() <= usize::MAX
    &&& forall|k: int| 0 <= k < bodies.len() ==> (#[trigger] bodies[k]).wf()
    &&& forall|i: int, j: int|
        0 <= i < bodies.len() && 0 <= j < bodies.len() ==> displacement_fits(
            #[trigger] bodies[i],
            #[trigger] bodies[j],
        )
}

/// Neither the tree nor the cheap test loses a contact: the stored
/// contacts are those, and only those, of the pairs of bodies whose contact
/// has a negative distance, each under its two indices, the smaller first.
pub proof fn lemma_detection_misses_no_contact(bodies: Seq<DynamicBody>, pair: ContactPair)
    requires
        bodies_fit(bodies),
    ensures
        detect_dynamic_collisions_spec(bodies).contains(pair) <==> (pair.1 < pair.2 < bodies.len()
            && generate_contact_dynamic_spec(bodies[pair.1 as int], bodies[pair.2 as int]) == Some(
            pair.0,
        ) && pair.0.distance.raw < 0),
{
    lemma_detection_is_brute_force(bodies, pair);
    if pair.1 < pair.2 < bodies.len() {
        let this = bodies[pair.1 as int];
        let that = bodies[pair.2 as int];
        if generate_contact_dynamic_spec(this, that) == Some(pair.0) && pair.0.distance.raw < 0 {
            assert(penetrate(this, that));
            lemma_fast_check_lets_penetrating_bodies_pass(this, that);
            lemma_penetrating_bodies_have_overlapping_boxes(this, that);
            assert(stored_contact(bodies, pair.1, pair.2) == Some(pair));
        }
    }
}

/// The contact with a static body leaves a body of infinite mass as it is.
pub proof fn lemma_static_collision_spares_infinite_mass(this: StaticBody, that: DynamicBody)
    requires
        that.body().inverse_mass.raw == 0,
    ensures
        handle_collision_static_spec(this, that) == that,
{
    assert forall|x: Fixed| #[trigger] x.mul_spec(that.body().inverse_mass) == (Fixed { raw: 0 }) by {
        lemma_mul_by_zero(x);
    }
}

/// The contacts with static bodies leave a body of infinite mass as it is.
pub proof fn lemma_after_statics_spares_infinite_mass(
    statics: Seq<StaticBody>,
    count: int,
    body: DynamicBody,
)
    requires
        body.body().inverse_mass.raw == 0,
    ensures
        after_statics(statics, count, body) == body,
    decreases count,
{
    if count > 0 {
        lemma_after_statics_spares_infinite_mass(statics, count - 1, body);
        lemma_static_collision_spares_infinite_mass(statics[count - 1], body);
    }
}

/// Neither the impulse nor the correction of a contact changes a body of
/// infinite mass, whichever of the two bodies it is.
pub proof fn lemma_contact_spares_infinite_mass(this: DynamicBody, that: DynamicBody, contact: Contact)
    ensures
        this.body().inverse_mass.raw == 0 ==> handle_collision_spec(this, that, contact).0 == this
            && correct_positions_spec(this, that, contact).0 == this,
        that.body().inverse_mass.raw == 0 ==> handle_collision_spec(this, that, contact).1 == that
            && correct_positions_spec(this, that, contact).1 == that,
{
    if this.body().inverse_mass.raw == 0 {
        assert forall|x: Fixed| #[trigger]
            x.mul_spec(this.body().inverse_mass) == (Fixed { raw: 0 }) by {
            lemma_mul_by_zero(x);
        }
    }
    if that.body().inverse_mass.raw == 0 {
        assert forall|x: Fixed| #[trigger]
            x.mul_spec(that.body().inverse_mass) == (Fixed { raw: 0 }) by {
            lemma_mul_by_zero(x);
        }
    }
}

/// A pass of impulses leaves every body of infinite mass as it is.
pub proof fn lemma_resolve_pass_spares_infinite_mass(
    bodies: Seq<DynamicBody>,
    contacts: Seq<ContactPair>,
    count: int,
    k: int,
)
    requires
        pairs_in_range(contacts, bodies.len() as int),
        count <= contacts.len(),
        0 <= k < bodies.len(),
        bodies[k].body().inverse_mass.raw == 0,
    ensures
        resolve_pass(bodies, contacts, count).len() == bodies.len(),
        resolve_pass(bodies, contacts, count)[k] == bodies[k],
    decreases count,
{
    if count > 0 {
        lemma_resolve_pass_spares_infinite_mass(bodies, contacts, count - 1, k);
        let before = resolve_pass(bodies, contacts, count - 1);
        let pair = contacts[count - 1];
        lemma_contact_spares_infinite_mass(before[pair.1 as int], before[pair.2 as int], pair.0);
    }
}

/// Any number of passes of impulses leaves every body of infinite mass as
/// it is.
pub proof fn lemma_resolve_velocities_spares_infinite_mass(
    bodies: Seq<DynamicBody>,
    contacts: Seq<ContactPair>,
    rounds: int,
    k: int,
)
    requires
        pairs_in_range(contacts, bodies.len() as int),
        0 <= k < bodies.len(),
        bodies[k].body().inverse_mass.raw == 0,
    ensures
        resolve_velocities(bodies, contacts, rounds).len() == bodies.len(),
        resolve_velocities(bodies, contacts, rounds)[k] == bodies[k],
    decreases rounds,
{
    if rounds > 0 {
        lemma_resolve_velocities_spares_infinite_mass(bodies, contacts, rounds - 1, k);
        lemma_resolve_pass_spares_infinite_mass(
            resolve_velocities(bodies, contacts, rounds - 1),
            contacts,
            contacts.len() as int,
            k,
        );
    }
}

/// A pass of corrections leaves every body of infinite mass as it is.
pub proof fn lemma_correct_pass_spares_infinite_mass(
    bodies: Seq<DynamicBody>,
    contacts: Seq<ContactPair>,
    count: int,
    k: int,
)
    requires
        pairs_in_range(contacts, bodies.len() as int),
        count <= contacts.len(),
        0 <= k < bodies.len(),
        bodies[k].body().inverse_mass.raw == 0,
    ensures
        correct_pass(bodies, contacts, count).len() == bodies.len(),
        correct_pass(bodies, contacts, count)[k] == bodies[k],
    decreases count,
{
    if count > 0 {
        lemma_correct_pass_spares_infinite_mass(bodies, contacts, count - 1, k);
        let before = correct_pass(bodies, contacts, count - 1);
        let pair = contacts[count - 1];
        lemma_contact_spares_infinite_mass(before[pair.1 as int], before[pair.2 as int], pair.0);
    }
}

/// A step does nothing to a body of infinite mass but move it at its
/// velocity: neither gravity nor any contact changes it.
pub proof fn lemma_tick_only_moves_infinite_mass(world: WorldView, elapsed: Fixed, k: int)
    requires
        0 <= k < world.dynamic_bodies.len(),
        world.dynamic_bodies[k].body().inverse_mass.raw == 0,
    ensures
        tick_spec(world, elapsed).dynamic_bodies.len() == world.dynamic_bodies.len(),
        tick_spec(world, elapsed).dynamic_bodies[k] == world.dynamic_bodies[k].with_body(
            world.dynamic_bodies[k].body().integrate_spec(elapsed),
        ),
{
    let body = world.dynamic_bodies[k];
    let pulled = apply_gravity_spec(world.dynamic_bodies, world.gravity, elapsed);
    assert(pulled[k] == body);
    let settled = resolve_static_spec(world.static_bodies, pulled);
    lemma_after_statics_spares_infinite_mass(
        world.static_bodies,
        world.static_bodies.len() as int,
        body,
    );
    assert(settled[k] == body);
    let contacts = detect_dynamic_collisions_spec(settled);
    lemma_detected_pairs_in_range(settled);
    let resolved = resolve_velocities(settled, contacts, SOLVER_ITERATIONS as int);
    lemma_resolve_velocities_spares_infinite_mass(settled, contacts, SOLVER_ITERATIONS as int, k);
    let corrected = correct_pass(resolved, contacts, contacts.len() as int);
    lemma_correct_pass_spares_infinite_mass(resolved, contacts, contacts.len() as int, k);
    assert(corrected[k] == body);
    assert(corrected == handle_collisions_spec(world.static_bodies, pulled));
}

} // verus!
