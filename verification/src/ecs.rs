//! Entity bookkeeping of the simulation world: entities are numbered in
//! spawn order, and each robotic extruder records whether the constitutional
//! veto governs it.

use vstd::prelude::*;

verus! {

/// Identifier of an entity of the world.
pub type Entity = u32;

/// The entity allocator of the simulation world.
pub struct World {
    pub next_entity_id: Entity,
}

impl World {
    /// An empty world: the first entity spawned is numbered 0.
    pub fn new() -> (w: Self)
        ensures
            w.next_entity_id == 0,
    {
        World { next_entity_id: 0 }
    }

    /// Spawns an entity: it receives the next number, and every later entity
    /// receives a larger one, so no number is handed out twice.
    pub fn spawn_entity(&mut self) -> (id: Entity)
        requires
            old(self).next_entity_id < u32::MAX,
        ensures
            id == old(self).next_entity_id,
            final(self).next_entity_id == id + 1,
            (*final(self), id) == spawned(*old(self)),
    {
        let id = self.next_entity_id;
        self.next_entity_id = self.next_entity_id + 1;
        id
    }
}

/// One spawn: the world with its counter advanced, and the number handed out.
pub open spec fn spawned(w: World) -> (World, Entity) {
    (World { next_entity_id: (w.next_entity_id + 1) as Entity }, w.next_entity_id)
}

/// `k` successive spawns from `w`: the world afterwards and the numbers handed
/// out, in order.
pub open spec fn spawn_run(w: World, k: nat) -> (World, Seq<Entity>)
    decreases k,
{
    if k == 0 {
        (w, Seq::empty())
    } else {
        let (w1, ids) = spawn_run(w, (k - 1) as nat);
        let (w2, id) = spawned(w1);
        (w2, ids.push(id))
    }
}

/// `k` successive spawns from a world whose counter stands at `n0` (with
/// `n0 + k` within `u32`) are each permitted, hand out `n0, n0 + 1, ...,
/// n0 + k - 1`, all distinct, and leave the counter at `n0 + k`.
pub proof fn successive_spawns_are_numbered(w: World, k: nat)
    requires
        w.next_entity_id + k <= u32::MAX,
    ensures
        spawn_run(w, k).0.next_entity_id == w.next_entity_id + k,
        spawn_run(w, k).1.len() == k,
        forall|i: int| 0 <= i < k ==> #[trigger] spawn_run(w, k).1[i] == w.next_entity_id + i,
        forall|i: int, j: int| 0 <= i < j < k ==> spawn_run(w, k).1[i] != spawn_run(w, k).1[j],
        forall|i: nat| i < k ==> (#[trigger] spawn_run(w, i)).0.next_entity_id < u32::MAX,
    decreases k,
{
    if k > 0 {
        successive_spawns_are_numbered(w, (k - 1) as nat);
        assert forall|i: nat| i < k implies (#[trigger] spawn_run(w, i)).0.next_entity_id < u32::MAX by {
            if i < k - 1 {
            } else {
                assert(i == k - 1);
            }
        }
    }
}

/// Entities spawned one after the other from the same world are distinct and
/// numbered in spawn order.
pub proof fn spawned_entities_are_fresh(w0: World, a: Entity, w1: World, b: Entity, w2: World)
    requires
        a == w0.next_entity_id,
        w1.next_entity_id == a + 1,
        w1.next_entity_id <= b,
        w2.next_entity_id == b + 1,
    ensures
        a < b,
        a != b,
{
}

/// The top-level extruder aggregate that motor and flow components attach to.
#[derive(Clone, Debug)]
pub struct RoboticExtruder {
    pub name: String,
    /// Whether the constitutional veto is active for this extruder.
    pub is_constrained: bool,
}

} // verus!
