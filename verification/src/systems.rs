//! Per-tick systems: pure passes over world state that compute events.
//!
//! A system never mutates the world; its intended changes come back as a
//! sequence of events, deferred to [`crate::world::World::apply_events`].
//! Within one tick every system reads the same pre-tick snapshot, and the
//! concatenated batch is applied only after all systems have produced their
//! events, so an integration event carries the position advanced by the
//! pre-tick velocity even when a gravity event for the same entity stands
//! earlier in the batch.

use vstd::prelude::*;
use crate::component::{PhysicsObject, Transform};
use crate::entity::{lemma_applied_preserves_shape, Entity};
use crate::event::{EntityEvent, Event, EventApplyError};
use crate::fixed::{mul_fixed, mul_fixed_spec};
use crate::vec3::Vec3;
use crate::world::{
    apply_all_spec, apply_one_spec, contains_id, index_of_id, lemma_apply_all_concat,
    lemma_index_of_id_unique, unique_ids, World,
};

verus! {

/// Gravitational acceleration along the y axis, in fixed-point units per
/// second per second: -9.81 whole units.
pub const GRAVITY_Y: i64 = -9810;

/// The velocity gravity contributes over a tick of length `delta`.
pub open spec fn gravity_delta_spec(delta: int) -> Vec3 {
    Vec3 { x: 0, y: mul_fixed_spec(GRAVITY_Y as int, delta) as i64, z: 0 }
}

/// The change the gravity system intends for a physics-bearing entity: its
/// current velocity plus the gravity contribution.
pub open spec fn gravity_change(delta: int) -> spec_fn(Entity) -> EntityEvent {
    |e: Entity|
        EntityEvent::VelocityChange {
            to: e.physics->0.velocity.plus_spec(gravity_delta_spec(delta)),
        }
}

/// The change the physics (integration) system intends for a physics-bearing
/// entity: its position advanced by its current velocity over the tick.
pub open spec fn integration_change(delta: int) -> spec_fn(Entity) -> EntityEvent {
    |e: Entity|
        EntityEvent::PositionChange {
            to: e.transform.position.plus_spec(e.physics->0.velocity.scaled_spec(delta)),
        }
}

/// What one system pass emits over world state `s`: one event per
/// physics-bearing entity, in entity order, addressed to that entity and
/// carrying `change(entity)`; entities without physics are skipped silently.
pub open spec fn system_events_spec(
    s: Seq<Entity>,
    change: spec_fn(Entity) -> EntityEvent,
) -> Seq<Event>
    decreases s.len(),
{
    if s.len() == 0 {
        Seq::empty()
    } else {
        system_events_spec(s.drop_last(), change) + if s.last().physics is Some {
            seq![Event::Entity(s.last().id, change(s.last()))]
        } else {
            Seq::empty()
        }
    }
}

/// Everything the gravity system emits over world state `s`.
pub open spec fn gravity_events_spec(s: Seq<Entity>, delta: int) -> Seq<Event> {
    system_events_spec(s, gravity_change(delta))
}

/// Everything the physics (integration) system emits over world state `s`.
pub open spec fn physics_events_spec(s: Seq<Entity>, delta: int) -> Seq<Event> {
    system_events_spec(s, integration_change(delta))
}

/// Gravity system: for every entity with physics, emit the velocity change of
/// exactly `(0, -9.81 * delta, 0)` on top of the current velocity; entities
/// without physics get no event.
pub fn gravity_system(world: &World, delta: i64) -> (r: Vec<Event>)
    ensures
        r@ == gravity_events_spec(world@, delta as int),
{
    let mut events: Vec<Event> = Vec::new();
    let mut i: usize = 0;
    while i < world.entities.len()
        invariant
            i <= world@.len(),
            events@ == gravity_events_spec(world@.take(i as int), delta as int),
        decreases world@.len() - i,
    {
        let entity = &world.entities[i];
        match &entity.physics {
            Some(physics) => {
                let to = physics.velocity.plus(Vec3::new(0, mul_fixed(GRAVITY_Y, delta), 0));
                events.push(Event::entity(entity.id, EntityEvent::VelocityChange { to }));
            },
            None => {},
        }
        proof {
            let t1 = world@.take(i as int + 1);
            assert(t1.drop_last() =~= world@.take(i as int));
            assert(t1.last() == world@[i as int]);
            assert(events@ =~= gravity_events_spec(t1, delta as int));
        }
        i += 1;
    }
    proof {
        assert(world@.take(world@.len() as int) =~= world@);
    }
    events
}

/// Physics (integration) system: for every entity with physics, emit the
/// position change of exactly the pre-tick velocity times `delta` on top of
/// the current position; entities without physics get no event.
pub fn physics_system(world: &World, delta: i64) -> (r: Vec<Event>)
    ensures
        r@ == physics_events_spec(world@, delta as int),
{
    let mut events: Vec<Event> = Vec::new();
    let mut i: usize = 0;
    while i < world.entities.len()
        invariant
            i <= world@.len(),
            events@ == physics_events_spec(world@.take(i as int), delta as int),
        decreases world@.len() - i,
    {
        let entity = &world.entities[i];
        match &entity.physics {
            Some(physics) => {
                let to = entity.transform.position.plus(physics.velocity.scaled(delta));
                events.push(Event::entity(entity.id, EntityEvent::PositionChange { to }));
            },
            None => {},
        }
        proof {
            let t1 = world@.take(i as int + 1);
            assert(t1.drop_last() =~= world@.take(i as int));
            assert(t1.last() == world@[i as int]);
            assert(events@ =~= physics_events_spec(t1, delta as int));
        }
        i += 1;
    }
    proof {
        assert(world@.take(world@.len() as int) =~= world@);
    }
    events
}

/// Some physics-bearing entity of `s` accounts for `ev`: the event is
/// addressed to it and carries `change` of it.
pub open spec fn emitted_for_physics(
    s: Seq<Entity>,
    change: spec_fn(Entity) -> EntityEvent,
    ev: Event,
) -> bool {
    exists|k: int|
        0 <= k < s.len() && s[k].physics is Some && ev == Event::Entity(s[k].id, change(s[k]))
}

/// Every emitted event is accounted for by a physics-bearing entity.
proof fn lemma_system_events_from_physics(s: Seq<Entity>, change: spec_fn(Entity) -> EntityEvent)
    ensures
        forall|n: int|
            0 <= n < system_events_spec(s, change).len() ==> emitted_for_physics(
                s,
                change,
                #[trigger] system_events_spec(s, change)[n],
            ),
    decreases s.len(),
{
    if s.len() > 0 {
        let evs = system_events_spec(s, change);
        let pre = system_events_spec(s.drop_last(), change);
        lemma_system_events_from_physics(s.drop_last(), change);
        assert forall|n: int| 0 <= n < evs.len() implies emitted_for_physics(
            s,
            change,
            #[trigger] evs[n],
        ) by {
            if n < pre.len() {
                assert(evs[n] == pre[n]);
                assert(emitted_for_physics(s.drop_last(), change, pre[n]));
                let k = choose|k: int|
                    0 <= k < s.drop_last().len() && s.drop_last()[k].physics is Some && pre[n]
                        == Event::Entity(s.drop_last()[k].id, change(s.drop_last()[k]));
                assert(s.drop_last()[k] == s[k]);
                assert(0 <= k < s.len() && s[k].physics is Some && evs[n] == Event::Entity(
                    s[k].id,
                    change(s[k]),
                ));
            } else {
                let k: int = s.len() - 1;
                assert(s.last().physics is Some);
                assert(evs[n] == Event::Entity(s[k].id, change(s[k])));
            }
        }
    }
}

/// For an entity without physics, neither the gravity system nor the physics
/// system emits any event: no event of either pass is addressed to an
/// identity that only physics-less entities hold.
pub proof fn lemma_no_event_without_physics(s: Seq<Entity>, delta: int, id: u128)
    requires
        forall|k: int| 0 <= k < s.len() && s[k].id == id ==> s[k].physics is None,
    ensures
        forall|n: int|
            0 <= n < gravity_events_spec(s, delta).len() ==> (#[trigger] gravity_events_spec(
                s,
                delta,
            )[n]).target() != id,
        forall|n: int|
            0 <= n < physics_events_spec(s, delta).len() ==> (#[trigger] physics_events_spec(
                s,
                delta,
            )[n]).target() != id,
{
    lemma_system_events_from_physics(s, gravity_change(delta));
    lemma_system_events_from_physics(s, integration_change(delta));
    assert forall|n: int| 0 <= n < gravity_events_spec(s, delta).len() implies (
    #[trigger] gravity_events_spec(s, delta)[n]).target() != id by {
        let ev = gravity_events_spec(s, delta)[n];
        let k = choose|k: int|
            0 <= k < s.len() && s[k].physics is Some && ev == Event::Entity(
                s[k].id,
                gravity_change(delta)(s[k]),
            );
        assert(ev.target() == s[k].id);
    }
    assert forall|n: int| 0 <= n < physics_events_spec(s, delta).len() implies (
    #[trigger] physics_events_spec(s, delta)[n]).target() != id by {
        let ev = physics_events_spec(s, delta)[n];
        let k = choose|k: int|
            0 <= k < s.len() && s[k].physics is Some && ev == Event::Entity(
                s[k].id,
                integration_change(delta)(s[k]),
            );
        assert(ev.target() == s[k].id);
    }
}

/// Applying one system pass over the snapshot `w` to the (possibly further
/// evolved) world `v` succeeds and changes exactly the physics-bearing
/// entities, each by its own event; `v` must still hold the snapshot's
/// identities and physics layout, and every intended change must be
/// applicable.
proof fn lemma_apply_system_events(
    v: Seq<Entity>,
    w: Seq<Entity>,
    change: spec_fn(Entity) -> EntityEvent,
    k: int,
)
    requires
        0 <= k <= w.len(),
        v.len() == w.len(),
        unique_ids(v),
        forall|i: int| 0 <= i < w.len() ==> v[i].id == w[i].id,
        forall|i: int| 0 <= i < w.len() ==> (v[i].physics is Some <==> w[i].physics is Some),
        forall|i: int|
            0 <= i < k && w[i].physics is Some ==> (#[trigger] v[i].apply_spec(
                change(w[i]),
            )) is Ok,
    ensures
        apply_all_spec(v, system_events_spec(w.take(k), change)).1 == Ok::<(), EventApplyError>(()),
        apply_all_spec(v, system_events_spec(w.take(k), change)).0.len() == v.len(),
        forall|i: int|
            0 <= i < v.len() ==> apply_all_spec(v, system_events_spec(w.take(k), change)).0[i] == (
            if 0 <= i < k && w[i].physics is Some {
                v[i].applied(change(w[i]))
            } else {
                v[i]
            }),
    decreases k,
{
    let evs = system_events_spec(w.take(k), change);
    if k == 0 {
        assert(w.take(0).len() == 0);
        assert(apply_all_spec(v, evs) == (v, Ok::<(), EventApplyError>(())));
    } else {
        lemma_apply_system_events(v, w, change, k - 1);
        let evs0 = system_events_spec(w.take(k - 1), change);
        let v1 = apply_all_spec(v, evs0).0;
        assert(w.take(k).drop_last() =~= w.take(k - 1));
        assert(w.take(k).last() == w[k - 1]);
        assert forall|i: int| 0 <= i < v1.len() implies #[trigger] v1[i].id == v[i].id && (
        v1[i].physics is Some <==> v[i].physics is Some) by {
            if 0 <= i < k - 1 && w[i].physics is Some {
                lemma_applied_preserves_shape(v[i], change(w[i]));
            }
        }
        assert(unique_ids(v1));
        if w[k - 1].physics is Some {
            let ev = Event::Entity(w[k - 1].id, change(w[k - 1]));
            assert(evs == evs0 + seq![ev]);
            lemma_apply_all_concat(v, evs0, seq![ev]);
            assert(v1[k - 1] == v[k - 1]);
            lemma_index_of_id_unique(v1, k - 1);
            assert(contains_id(v1, ev.target()));
            assert(index_of_id(v1, ev.target()) == k - 1);
            assert(v[k - 1].apply_spec(change(w[k - 1])) is Ok);
            let e2 = v[k - 1].applied(change(w[k - 1]));
            assert(apply_one_spec(v1, ev) == Ok::<Seq<Entity>, EventApplyError>(
                v1.update(k - 1, e2),
            ));
            assert(seq![ev].drop_first() =~= Seq::<Event>::empty());
            assert(apply_all_spec(v1.update(k - 1, e2), seq![ev].drop_first()) == (
                v1.update(k - 1, e2),
                Ok::<(), EventApplyError>(()),
            ));
            assert(apply_all_spec(v1, seq![ev]) == (
                v1.update(k - 1, e2),
                Ok::<(), EventApplyError>(()),
            ));
        } else {
            assert(evs =~= evs0);
        }
    }
}

/// Where one tick at `delta` leaves an entity: a physics-bearing one gets its
/// velocity advanced by gravity and its position advanced by its pre-tick
/// velocity; one without physics is untouched.
pub open spec fn tick_result_spec(e: Entity, delta: int) -> Entity {
    if e.physics is Some {
        Entity {
            id: e.id,
            transform: Transform {
                position: e.transform.position.plus_spec(
                    e.physics->0.velocity.scaled_spec(delta),
                ),
            },
            physics: Some(
                PhysicsObject { velocity: e.physics->0.velocity.plus_spec(gravity_delta_spec(delta)) },
            ),
        }
    } else {
        e
    }
}

/// One tick: running gravity and integration over the same pre-tick snapshot
/// and applying the concatenated batch afterwards succeeds, and every entity
/// ends at [`tick_result_spec`] — in particular the position advances by the
/// pre-tick velocity, not the velocity gravity just wrote.
pub proof fn lemma_one_tick(s: Seq<Entity>, delta: int)
    requires
        unique_ids(s),
    ensures
        apply_all_spec(s, gravity_events_spec(s, delta) + physics_events_spec(s, delta)).1 == Ok::<
            (),
            EventApplyError,
        >(()),
        apply_all_spec(s, gravity_events_spec(s, delta) + physics_events_spec(s, delta)).0.len()
            == s.len(),
        forall|i: int|
            0 <= i < s.len() ==> apply_all_spec(
                s,
                gravity_events_spec(s, delta) + physics_events_spec(s, delta),
            ).0[i] == tick_result_spec(s[i], delta),
{
    let g = gravity_events_spec(s, delta);
    let p = physics_events_spec(s, delta);
    let n: int = s.len() as int;
    assert(s.take(n) =~= s);
    assert forall|i: int|
        0 <= i < n && s[i].physics is Some implies (#[trigger] s[i].apply_spec(
        gravity_change(delta)(s[i]),
    )) is Ok by {
        assert(gravity_change(delta)(s[i]) is VelocityChange);
    }
    lemma_apply_system_events(s, s, gravity_change(delta), n);
    let v1 = apply_all_spec(s, g).0;
    assert forall|i: int| 0 <= i < n implies #[trigger] v1[i].id == s[i].id && (
    v1[i].physics is Some <==> s[i].physics is Some) by {
        if s[i].physics is Some {
            lemma_applied_preserves_shape(s[i], gravity_change(delta)(s[i]));
        }
    }
    assert(unique_ids(v1));
    assert forall|i: int|
        0 <= i < n && s[i].physics is Some implies (#[trigger] v1[i].apply_spec(
        integration_change(delta)(s[i]),
    )) is Ok by {
        assert(integration_change(delta)(s[i]) is PositionChange);
    }
    lemma_apply_system_events(v1, s, integration_change(delta), n);
    lemma_apply_all_concat(s, g, p);
    let v2 = apply_all_spec(v1, p).0;
    assert forall|i: int| 0 <= i < n implies v2[i] == tick_result_spec(s[i], delta) by {
        if s[i].physics is Some {
            let after_gravity = s[i].applied(gravity_change(delta)(s[i]));
            assert(v1[i] == after_gravity);
            assert(v2[i] == v1[i].applied(integration_change(delta)(s[i])));
            assert(after_gravity.transform == s[i].transform);
            assert(after_gravity.physics == Some(
                PhysicsObject {
                    velocity: s[i].physics->0.velocity.plus_spec(gravity_delta_spec(delta)),
                },
            ));
        } else {
            assert(v2[i] == v1[i] && v1[i] == s[i]);
        }
    }
}

} // verus!
