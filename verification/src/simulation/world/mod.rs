//! The world of bodies and its time step.

use crate::body::{BaseDynamicBody, Body, DynamicBody, StaticBody};
use crate::fixed::Fixed;
use crate::simulation::collisions::{
    fast_collision_check, fast_collision_check_spec, generate_contact_dynamic,
    generate_contact_dynamic_spec, Contact,
};
use crate::vec2::Vec2D;
use hierarchy::{build, lemma_build, lemma_overlapping_finds_leaves, Entry};
use solver::{correct_positions_spec, handle_collision_spec, handle_collision_static_spec};
use crate::bounding_volume::BoundingVolume;
use vstd::prelude::*;

pub mod generation;
pub mod hierarchy;
pub mod laws;
pub mod solver;

pub use hierarchy::BoundingVolumeHierarchyTree;
pub use solver::{
    correct_positions, get_correction, get_impulse, handle_collision, handle_collision_static,
};

verus! {

/// How often the impulses of the stored contacts are applied in one step.
pub const SOLVER_ITERATIONS: usize = 10;

/// A contact of two moving bodies, with the index of the first and the
/// greater index of the second.
pub type ContactPair = (Contact, usize, usize);

/// The bodies of a simulation and the gravity that acts on those that move.
#[derive(Debug, Clone)]
pub struct World {
    pub static_bodies: Vec<StaticBody>,
    pub dynamic_bodies: Vec<DynamicBody>,
    pub gravity: Vec2D,
}

/// A world as a mathematical value.
pub struct WorldView {
    pub static_bodies: Seq<StaticBody>,
    pub dynamic_bodies: Seq<DynamicBody>,
    pub gravity: Vec2D,
}

impl WorldView {
    /// Whether every moving body is well formed.
    pub open spec fn wf(self) -> bool {
        forall|k: int| 0 <= k < self.dynamic_bodies.len() ==> (#[trigger] self.dynamic_bodies[k]).wf()
    }
}

impl View for World {
    type V = WorldView;

    open spec fn view(&self) -> WorldView {
        WorldView {
            static_bodies: self.static_bodies@,
            dynamic_bodies: self.dynamic_bodies@,
            gravity: self.gravity,
        }
    }
}

/// A body after `change` has been added to its velocity, which happens only
/// to a body of finite mass.
pub open spec fn accelerate(body: DynamicBody, change: Vec2D) -> DynamicBody {
    if body.body().inverse_mass.raw > 0 {
        body.with_body(
            BaseDynamicBody { velocity: body.body().velocity.add_spec(change), ..body.body() },
        )
    } else {
        body
    }
}

/// The bodies after gravity has acted on each for `elapsed`.
pub open spec fn apply_gravity_spec(bodies: Seq<DynamicBody>, gravity: Vec2D, elapsed: Fixed) -> Seq<
    DynamicBody,
> {
    Seq::new(bodies.len(), |k: int| accelerate(bodies[k], gravity.mul_spec(elapsed)))
}

/// A moving body after its contacts with the first `count` static bodies
/// have been resolved, one after the other.
pub open spec fn after_statics(statics: Seq<StaticBody>, count: int, body: DynamicBody) -> DynamicBody
    decreases count,
{
    if count <= 0 {
        body
    } else {
        handle_collision_static_spec(statics[count - 1], after_statics(statics, count - 1, body))
    }
}

/// The bodies after the contacts of each with every static body have been
/// resolved.
pub open spec fn resolve_static_spec(statics: Seq<StaticBody>, bodies: Seq<DynamicBody>) -> Seq<
    DynamicBody,
> {
    Seq::new(bodies.len(), |k: int| after_statics(statics, statics.len() as int, bodies[k]))
}

/// Each body's index with its box.
pub open spec fn entries_of(bodies: Seq<DynamicBody>) -> Seq<Entry> {
    Seq::new(bodies.len(), |k: int| (k as usize, bodies[k].to_bounding_volume_spec()))
}

/// The contact that is stored for the bodies at `i` and `j`: none unless
/// `j` is the greater index, the pair passes the cheap test, the two have a
/// contact, and its distance is negative.
pub open spec fn stored_contact(bodies: Seq<DynamicBody>, i: usize, j: usize) -> Option<ContactPair> {
    if j > i && fast_collision_check_spec(
        Body::Dynamic(bodies[i as int]),
        Body::Dynamic(bodies[j as int]),
    ) {
        match generate_contact_dynamic_spec(bodies[i as int], bodies[j as int]) {
            Some(contact) => if contact.distance.raw < 0 {
                Some((contact, i, j))
            } else {
                None
            },
            None => None,
        }
    } else {
        None
    }
}

/// The contacts stored for the body at `i` with the first `count` of the
/// candidates, in their order.
pub open spec fn contacts_among(
    bodies: Seq<DynamicBody>,
    i: usize,
    candidates: Seq<usize>,
    count: int,
) -> Seq<ContactPair>
    decreases count,
{
    if count <= 0 {
        Seq::empty()
    } else {
        let before = contacts_among(bodies, i, candidates, count - 1);
        match stored_contact(bodies, i, candidates[count - 1]) {
            Some(pair) => before.push(pair),
            None => before,
        }
    }
}

/// The contacts stored for the first `count` bodies, each with the
/// candidates that a walk of the tree finds for its box.
pub open spec fn contacts_upto(
    bodies: Seq<DynamicBody>,
    tree: BoundingVolumeHierarchyTree,
    count: int,
) -> Seq<ContactPair>
    decreases count,
{
    if count <= 0 {
        Seq::empty()
    } else {
        let candidates = tree.overlapping(bodies[count - 1].to_bounding_volume_spec());
        contacts_upto(bodies, tree, count - 1) + contacts_among(
            bodies,
            (count - 1) as usize,
            candidates,
            candidates.len() as int,
        )
    }
}

/// The contacts of the moving bodies with one another: for each body in
/// turn, those with the bodies of greater index that the tree over all
/// boxes finds for its box.
pub open spec fn detect_dynamic_collisions_spec(bodies: Seq<DynamicBody>) -> Seq<ContactPair> {
    match build(entries_of(bodies)) {
        Some(tree) => contacts_upto(bodies, tree, bodies.len() as int),
        None => Seq::empty(),
    }
}

/// The bodies after the impulse of one stored contact.
pub open spec fn apply_impulse(bodies: Seq<DynamicBody>, pair: ContactPair) -> Seq<DynamicBody> {
    let (this, that) = handle_collision_spec(bodies[pair.1 as int], bodies[pair.2 as int], pair.0);
    bodies.update(pair.1 as int, this).update(pair.2 as int, that)
}

/// The bodies after the impulses of the first `count` contacts, in their
/// order.
pub open spec fn resolve_pass(bodies: Seq<DynamicBody>, contacts: Seq<ContactPair>, count: int) -> Seq<
    DynamicBody,
>
    decreases count,
{
    if count <= 0 {
        bodies
    } else {
        apply_impulse(resolve_pass(bodies, contacts, count - 1), contacts[count - 1])
    }
}

/// The bodies after `rounds` passes over all the contacts.
pub open spec fn resolve_velocities(
    bodies: Seq<DynamicBody>,
    contacts: Seq<ContactPair>,
    rounds: int,
) -> Seq<DynamicBody>
    decreases rounds,
{
    if rounds <= 0 {
        bodies
    } else {
        resolve_pass(
            resolve_velocities(bodies, contacts, rounds - 1),
            contacts,
            contacts.len() as int,
        )
    }
}

/// The bodies after the correction of one stored contact.
pub open spec fn apply_correction(bodies: Seq<DynamicBody>, pair: ContactPair) -> Seq<DynamicBody> {
    let (this, that) = correct_positions_spec(bodies[pair.1 as int], bodies[pair.2 as int], pair.0);
    bodies.update(pair.1 as int, this).update(pair.2 as int, that)
}

/// The bodies after the corrections of the first `count` contacts, in
/// their order.
pub open spec fn correct_pass(bodies: Seq<DynamicBody>, contacts: Seq<ContactPair>, count: int) -> Seq<
    DynamicBody,
>
    decreases count,
{
    if count <= 0 {
        bodies
    } else {
        apply_correction(correct_pass(bodies, contacts, count - 1), contacts[count - 1])
    }
}

/// The bodies after all contacts have been handled: first those with the
/// static bodies; then the contacts among the moving bodies are stored,
/// their impulses applied in `SOLVER_ITERATIONS` passes, and their
/// corrections in one.
pub open spec fn handle_collisions_spec(statics: Seq<StaticBody>, bodies: Seq<DynamicBody>) -> Seq<
    DynamicBody,
> {
    let bodies = resolve_static_spec(statics, bodies);
    let contacts = detect_dynamic_collisions_spec(bodies);
    let bodies = resolve_velocities(bodies, contacts, SOLVER_ITERATIONS as int);
    correct_pass(bodies, contacts, contacts.len() as int)
}

/// The bodies after each has moved for `elapsed` at its velocity.
pub open spec fn integrate_bodies_spec(bodies: Seq<DynamicBody>, elapsed: Fixed) -> Seq<DynamicBody> {
    Seq::new(
        bodies.len(),
        |k: int| bodies[k].with_body(bodies[k].body().integrate_spec(elapsed)),
    )
}

/// The world one step of `elapsed` later: gravity, then the contacts, then
/// the movement.
pub open spec fn tick_spec(world: WorldView, elapsed: Fixed) -> WorldView {
    let bodies = apply_gravity_spec(world.dynamic_bodies, world.gravity, elapsed);
    let bodies = handle_collisions_spec(world.static_bodies, bodies);
    let bodies = integrate_bodies_spec(bodies, elapsed);
    WorldView { dynamic_bodies: bodies, ..world }
}

/// Whether every contact names two bodies, the first by the smaller index.
pub open spec fn pairs_in_range(contacts: Seq<ContactPair>, total: int) -> bool {
    forall|k: int| 0 <= k < contacts.len() ==> (#[trigger] contacts[k]).1 < contacts[k].2 < total
}

/// Every candidate that the tree over the boxes of the bodies finds is the
/// index of a body.
pub proof fn lemma_candidate_in_range(
    bodies: Seq<DynamicBody>,
    query: BoundingVolume,
    candidate: usize,
)
    requires
        build(entries_of(bodies)) is Some,
        build(entries_of(bodies)).unwrap().overlapping(query).contains(candidate),
    ensures
        candidate < bodies.len(),
{
    let entries = entries_of(bodies);
    let tree = build(entries).unwrap();
    lemma_build(entries);
    lemma_overlapping_finds_leaves(tree, query, candidate);
    let k = choose|k: int|
        0 <= k < tree.leaves().len() && (#[trigger] tree.leaves()[k]).0 == candidate
            && tree.leaves()[k].1.is_intersecting_spec(query);
    assert(tree.leaves().contains(tree.leaves()[k]));
    assert(entries.contains(tree.leaves()[k]));
    let m = choose|m: int| 0 <= m < entries.len() && entries[m] == tree.leaves()[k];
    assert(entries[m].0 == m as usize);
}

impl World {
    /// Adds to the velocity of every body of finite mass what gravity
    /// gives it in `elapsed`.
    pub fn apply_gravity(&mut self, elapsed: Fixed)
        ensures
            final(self)@ == (WorldView {
                dynamic_bodies: apply_gravity_spec(
                    old(self)@.dynamic_bodies,
                    old(self)@.gravity,
                    elapsed,
                ),
                ..old(self)@
            }),
    {
        let ghost before = self@;
        let gravity: Vec2D = self.gravity.mul(elapsed);
        let total: usize = self.dynamic_bodies.len();
        let mut k: usize = 0;
        while k < total
            invariant
                k <= total,
                total == before.dynamic_bodies.len(),
                self@.static_bodies == before.static_bodies,
                self@.gravity == before.gravity,
                self@.dynamic_bodies.len() == total,
                gravity == before.gravity.mul_spec(elapsed),
                forall|j: int|
                    0 <= j < k ==> self@.dynamic_bodies[j] == accelerate(
                        before.dynamic_bodies[j],
                        gravity,
                    ),
                forall|j: int| k <= j < total ==> self@.dynamic_bodies[j] == before.dynamic_bodies[j],
            decreases total - k,
        {
            let mut body: DynamicBody = self.dynamic_bodies[k];
            if body.as_ref().inverse_mass.raw > 0 {
                body.as_mut().velocity.add_assign(&gravity);
                self.dynamic_bodies.set(k, body);
            }
            k = k + 1;
        }
        assert(self@.dynamic_bodies =~= apply_gravity_spec(
            before.dynamic_bodies,
            before.gravity,
            elapsed,
        ));
    }

    /// The contacts of the moving bodies with one another, each with a
    /// negative distance and with the indices of its two bodies, the smaller
    /// first.
    pub fn detect_dynamic_collisions(&self) -> (r: Vec<ContactPair>)
        ensures
            r@ == detect_dynamic_collisions_spec(self@.dynamic_bodies),
            pairs_in_range(r@, self@.dynamic_bodies.len() as int),
    {
        let ghost bodies = self@.dynamic_bodies;
        let total: usize = self.dynamic_bodies.len();
        let mut bounding_volumes: Vec<Entry> = Vec::new();
        let mut k: usize = 0;
        while k < total
            invariant
                k <= total,
                total == self.dynamic_bodies@.len(),
                bodies == self.dynamic_bodies@,
                bounding_volumes@.len() == k,
                forall|j: int| 0 <= j < k ==> bounding_volumes@[j] == entries_of(bodies)[j],
            decreases total - k,
        {
            bounding_volumes.push((k, self.dynamic_bodies[k].to_bounding_volume()));
            k = k + 1;
        }
        assert(bounding_volumes@ =~= entries_of(bodies));
        let bvh: BoundingVolumeHierarchyTree = match BoundingVolumeHierarchyTree::new(
            bounding_volumes.as_slice(),
        ) {
            Some(tree) => tree,
            None => {
                return Vec::new();
            },
        };
        let mut contacts: Vec<ContactPair> = Vec::new();
        let mut i: usize = 0;
        while i < total
            invariant
                i <= total,
                total == self.dynamic_bodies@.len(),
                bodies == self.dynamic_bodies@,
                bounding_volumes@ == entries_of(bodies),
                build(entries_of(bodies)) == Some(bvh),
                contacts@ == contacts_upto(bodies, bvh, i as int),
                pairs_in_range(contacts@, total as int),
            decreases total - i,
        {
            let this: DynamicBody = self.dynamic_bodies[i];
            let candidates: Vec<usize> = bvh.get_overlapping_bodies(&bounding_volumes[i].1);
            let ghost before = contacts@;
            let mut c: usize = 0;
            while c < candidates.len()
                invariant
                    c <= candidates@.len(),
                    i < total,
                    total == self.dynamic_bodies@.len(),
                    bodies == self.dynamic_bodies@,
                    this == bodies[i as int],
                    build(entries_of(bodies)) == Some(bvh),
                    candidates@ == bvh.overlapping(bodies[i as int].to_bounding_volume_spec()),
                    contacts@ == before + contacts_among(bodies, i, candidates@, c as int),
                    pairs_in_range(contacts@, total as int),
                decreases candidates@.len() - c,
            {
                let j: usize = candidates[c];
                proof {
                    assert(candidates@.contains(j));
                    lemma_candidate_in_range(bodies, bodies[i as int].to_bounding_volume_spec(), j);
                }
                let ghost stored = contacts@;
                if j > i {
                    let that: DynamicBody = self.dynamic_bodies[j];
                    if fast_collision_check(&Body::Dynamic(this), &Body::Dynamic(that)) {
                        if let Some(contact) = generate_contact_dynamic(&this, &that) {
                            if contact.distance.raw < 0 {
                                contacts.push((contact, i, j));
                            }
                        }
                    }
                }
                c = c + 1;
                assert(contacts@ == before + contacts_among(bodies, i, candidates@, c as int)) by {
                    let among = contacts_among(bodies, i, candidates@, c - 1);
                    match stored_contact(bodies, i, j) {
                        Some(pair) => {
                            assert(contacts@ =~= before + among.push(pair));
                        },
                        None => {},
                    }
                }
            }
            i = i + 1;
        }
        contacts
    }

    /// Resolves the contacts of every moving body with every static one.
    pub fn handle_static_collisions(&mut self)
        ensures
            final(self)@ == (WorldView {
                dynamic_bodies: resolve_static_spec(
                    old(self)@.static_bodies,
                    old(self)@.dynamic_bodies,
                ),
                ..old(self)@
            }),
    {
        let ghost before = self@;
        let total: usize = self.dynamic_bodies.len();
        let mut s: usize = 0;
        while s < self.static_bodies.len()
            invariant
                s <= self.static_bodies@.len(),
                self@.static_bodies == before.static_bodies,
                self@.gravity == before.gravity,
                self@.dynamic_bodies.len() == total,
                total == before.dynamic_bodies.len(),
                forall|j: int|
                    0 <= j < total ==> self@.dynamic_bodies[j] == after_statics(
                        before.static_bodies,
                        s as int,
                        before.dynamic_bodies[j],
                    ),
            decreases self.static_bodies@.len() - s,
        {
            let this: StaticBody = self.static_bodies[s];
            let mut d: usize = 0;
            while d < total
                invariant
                    d <= total,
                    s < self.static_bodies@.len(),
                    this == before.static_bodies[s as int],
                    self@.static_bodies == before.static_bodies,
                    self@.gravity == before.gravity,
                    self@.dynamic_bodies.len() == total,
                    total == before.dynamic_bodies.len(),
                    forall|j: int|
                        0 <= j < d ==> self@.dynamic_bodies[j] == after_statics(
                            before.static_bodies,
                            s + 1,
                            before.dynamic_bodies[j],
                        ),
                    forall|j: int|
                        d <= j < total ==> self@.dynamic_bodies[j] == after_statics(
                            before.static_bodies,
                            s as int,
                            before.dynamic_bodies[j],
                        ),
                decreases total - d,
            {
                let mut that: DynamicBody = self.dynamic_bodies[d];
                handle_collision_static(&this, &mut that);
                self.dynamic_bodies.set(d, that);
                d = d + 1;
            }
            s = s + 1;
        }
        assert(self@.dynamic_bodies =~= resolve_static_spec(
            before.static_bodies,
            before.dynamic_bodies,
        ));
    }

    /// Applies the impulse of each stored contact, in order, to the
    /// velocities that its two bodies have by then.
    pub fn apply_impulses(&mut self, contacts: &Vec<ContactPair>)
        requires
            pairs_in_range(contacts@, old(self)@.dynamic_bodies.len() as int),
        ensures
            final(self)@ == (WorldView {
                dynamic_bodies: resolve_pass(
                    old(self)@.dynamic_bodies,
                    contacts@,
                    contacts@.len() as int,
                ),
                ..old(self)@
            }),
            final(self)@.dynamic_bodies.len() == old(self)@.dynamic_bodies.len(),
    {
        let ghost before = self@;
        let total: usize = self.dynamic_bodies.len();
        let mut c: usize = 0;
        while c < contacts.len()
            invariant
                c <= contacts@.len(),
                self@.static_bodies == before.static_bodies,
                self@.gravity == before.gravity,
                self@.dynamic_bodies.len() == total,
                total == before.dynamic_bodies.len(),
                pairs_in_range(contacts@, total as int),
                self@.dynamic_bodies == resolve_pass(before.dynamic_bodies, contacts@, c as int),
            decreases contacts@.len() - c,
        {
            let (contact, i, j) = contacts[c];
            let mut this: DynamicBody = self.dynamic_bodies[i];
            let mut that: DynamicBody = self.dynamic_bodies[j];
            handle_collision(&mut this, &mut that, &contact);
            self.dynamic_bodies.set(i, this);
            self.dynamic_bodies.set(j, that);
            c = c + 1;
        }
    }

    /// Applies the correction of each stored contact, in order, to the
    /// positions of its two bodies.
    pub fn apply_corrections(&mut self, contacts: &Vec<ContactPair>)
        requires
            pairs_in_range(contacts@, old(self)@.dynamic_bodies.len() as int),
        ensures
            final(self)@ == (WorldView {
                dynamic_bodies: correct_pass(
                    old(self)@.dynamic_bodies,
                    contacts@,
                    contacts@.len() as int,
                ),
                ..old(self)@
            }),
    {
        let ghost before = self@;
        let total: usize = self.dynamic_bodies.len();
        let mut c: usize = 0;
        while c < contacts.len()
            invariant
                c <= contacts@.len(),
                self@.static_bodies == before.static_bodies,
                self@.gravity == before.gravity,
                self@.dynamic_bodies.len() == total,
                total == before.dynamic_bodies.len(),
                pairs_in_range(contacts@, total as int),
                self@.dynamic_bodies == correct_pass(before.dynamic_bodies, contacts@, c as int),
            decreases contacts@.len() - c,
        {
            let (contact, i, j) = contacts[c];
            let mut this: DynamicBody = self.dynamic_bodies[i];
            let mut that: DynamicBody = self.dynamic_bodies[j];
            correct_positions(&mut this, &mut that, &contact);
            self.dynamic_bodies.set(i, this);
            self.dynamic_bodies.set(j, that);
            c = c + 1;
        }
    }

    /// Handles all contacts: those with the static bodies first, each
    /// resolved at once; then those among the moving bodies, stored once,
    /// their impulses applied in `SOLVER_ITERATIONS` passes and their
    /// corrections in one.
    pub fn handle_collisions(&mut self)
        ensures
            final(self)@ == (WorldView {
                dynamic_bodies: handle_collisions_spec(
                    old(self)@.static_bodies,
                    old(self)@.dynamic_bodies,
                ),
                ..old(self)@
            }),
    {
        let ghost before = self@;
        self.handle_static_collisions();
        let ghost settled = self@.dynamic_bodies;
        let contacts: Vec<ContactPair> = self.detect_dynamic_collisions();
        let mut round: usize = 0;
        while round < SOLVER_ITERATIONS
            invariant
                round <= SOLVER_ITERATIONS,
                self@.static_bodies == before.static_bodies,
                self@.gravity == before.gravity,
                self@.dynamic_bodies.len() == settled.len(),
                pairs_in_range(contacts@, settled.len() as int),
                self@.dynamic_bodies == resolve_velocities(settled, contacts@, round as int),
            decreases SOLVER_ITERATIONS - round,
        {
            self.apply_impulses(&contacts);
            round = round + 1;
        }
        self.apply_corrections(&contacts);
    }

    /// Moves every body for `elapsed` at its velocity.
    pub fn integrate_bodies(&mut self, elapsed: Fixed)
        ensures
            final(self)@ == (WorldView {
                dynamic_bodies: integrate_bodies_spec(old(self)@.dynamic_bodies, elapsed),
                ..old(self)@
            }),
    {
        let ghost before = self@;
        let total: usize = self.dynamic_bodies.len();
        let mut k: usize = 0;
        while k < total
            invariant
                k <= total,
                total == before.dynamic_bodies.len(),
                self@.static_bodies == before.static_bodies,
                self@.gravity == before.gravity,
                self@.dynamic_bodies.len() == total,
                forall|j: int|
                    0 <= j < k ==> self@.dynamic_bodies[j] == before.dynamic_bodies[j].with_body(
                        before.dynamic_bodies[j].body().integrate_spec(elapsed),
                    ),
                forall|j: int| k <= j < total ==> self@.dynamic_bodies[j] == before.dynamic_bodies[j],
            decreases total - k,
        {
            let mut body: DynamicBody = self.dynamic_bodies[k];
            body.as_mut().integrate(elapsed);
            self.dynamic_bodies.set(k, body);
            k = k + 1;
        }
        assert(self@.dynamic_bodies =~= integrate_bodies_spec(before.dynamic_bodies, elapsed));
    }

    /// Advances the world by one step of `elapsed`: gravity acts, contacts
    /// are handled, and every body moves at the velocity it then has.
    pub fn tick(&mut self, elapsed: Fixed)
        ensures
            final(self)@ == tick_spec(old(self)@, elapsed),
    {
        self.apply_gravity(elapsed);
        self.handle_collisions();
        self.integrate_bodies(elapsed);
    }
}

} // verus!
