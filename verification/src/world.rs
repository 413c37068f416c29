//! The authoritative store of entities and the sole mutator of their state.
//!
//! A world is a mapping from identity to entity, held as a sequence with
//! pairwise-distinct identities. Applying a batch of events walks the batch in
//! order and stops at the first failure: later events are not applied, and the
//! effects of earlier ones are deliberately kept (event sourcing is not
//! transactional), so a failed batch leaves a partially updated world.

use vstd::prelude::*;
use crate::entity::Entity;
use crate::event::{Event, EventApplyError};

verus! {

/// The identities of `s` are pairwise distinct, so `s` is a mapping from
/// identity to entity.
pub open spec fn unique_ids(s: Seq<Entity>) -> bool {
    forall|i: int, j: int| 0 <= i < j < s.len() ==> s[i].id != s[j].id
}

/// Some entity of `s` has identity `id`.
pub open spec fn contains_id(s: Seq<Entity>, id: u128) -> bool {
    exists|i: int| 0 <= i < s.len() && s[i].id == id
}

/// An index of `s` holding identity `id`; under [`unique_ids`] there is
/// exactly one.
pub open spec fn index_of_id(s: Seq<Entity>, id: u128) -> int {
    choose|i: int| 0 <= i < s.len() && s[i].id == id
}

/// The entity of `s` with identity `id`.
pub open spec fn entity_for(s: Seq<Entity>, id: u128) -> Entity {
    s[index_of_id(s, id)]
}

/// Under pairwise-distinct identities, the index holding an identity is
/// unique, so [`index_of_id`] denotes exactly the index it was seen at.
pub proof fn lemma_index_of_id_unique(s: Seq<Entity>, i: int)
    requires
        unique_ids(s),
        0 <= i < s.len(),
    ensures
        contains_id(s, s[i].id),
        index_of_id(s, s[i].id) == i,
{
    assert(contains_id(s, s[i].id));
    let j = index_of_id(s, s[i].id);
    assert(0 <= j < s.len() && s[j].id == s[i].id);
}

/// One event applied to a world: the target is looked up by identity and the
/// entity-level change applied in place, or the lookup or the change fails and
/// the world is unchanged.
pub open spec fn apply_one_spec(s: Seq<Entity>, event: Event) -> Result<
    Seq<Entity>,
    EventApplyError,
> {
    if !contains_id(s, event.target()) {
        Err(EventApplyError::EntityNotFound)
    } else {
        let i = index_of_id(s, event.target());
        match s[i].apply_spec(event.payload()) {
            Ok(e) => Ok(s.update(i, e)),
            Err(err) => Err(err),
        }
    }
}

/// A batch applied in order, failing fast: `.0` is the world after the call,
/// which keeps the effects of the events before the first failing one, and
/// `.1` is the call's result.
pub open spec fn apply_all_spec(s: Seq<Entity>, events: Seq<Event>) -> (Seq<Entity>, Result<
    (),
    EventApplyError,
>)
    decreases events.len(),
{
    if events.len() == 0 {
        (s, Ok(()))
    } else {
        match apply_one_spec(s, events[0]) {
            Ok(s2) => apply_all_spec(s2, events.drop_first()),
            Err(err) => (s, Err(err)),
        }
    }
}

/// Applying a concatenated batch applies the prefix first and, when the whole
/// prefix succeeded, the suffix to the world the prefix left behind; a failure
/// in the prefix cuts the suffix off entirely.
pub proof fn lemma_apply_all_concat(s: Seq<Entity>, a: Seq<Event>, b: Seq<Event>)
    ensures
        apply_all_spec(s, a + b) == if apply_all_spec(s, a).1 is Ok {
            apply_all_spec(apply_all_spec(s, a).0, b)
        } else {
            apply_all_spec(s, a)
        },
    decreases a.len(),
{
    if a.len() == 0 {
        assert(a + b =~= b);
    } else {
        assert((a + b).drop_first() =~= a.drop_first() + b);
        assert((a + b)[0] == a[0]);
        match apply_one_spec(s, a[0]) {
            Ok(s2) => lemma_apply_all_concat(s2, a.drop_first(), b),
            Err(_) => {},
        }
    }
}

/// A three-event batch whose second event targets an identity absent after
/// the first: the first event is applied and stays applied, the second fails
/// the whole call with [`EventApplyError::EntityNotFound`], and the third is
/// never applied.
pub proof fn lemma_batch_stops_at_missing_target(s: Seq<Entity>, e1: Event, e2: Event, e3: Event)
    requires
        apply_one_spec(s, e1) is Ok,
        !contains_id(apply_one_spec(s, e1)->Ok_0, e2.target()),
    ensures
        apply_all_spec(s, seq![e1, e2, e3]) == (
            apply_one_spec(s, e1)->Ok_0,
            Err::<(), EventApplyError>(EventApplyError::EntityNotFound),
        ),
{
    let s1 = apply_one_spec(s, e1)->Ok_0;
    assert(seq![e1, e2, e3].drop_first() =~= seq![e2, e3]);
    assert(apply_one_spec(s1, e2) == Err::<Seq<Entity>, EventApplyError>(
        EventApplyError::EntityNotFound,
    ));
    assert(apply_all_spec(s1, seq![e2, e3]) == (
        s1,
        Err::<(), EventApplyError>(EventApplyError::EntityNotFound),
    ));
}

/// The authoritative store: entities keyed by identity, unique under
/// [`World::wf`], which every constructor establishes and every method
/// preserves.
#[derive(Debug)]
pub struct World {
    pub entities: Vec<Entity>,
}

impl View for World {
    type V = Seq<Entity>;

    open spec fn view(&self) -> Seq<Entity> {
        self.entities@
    }
}

impl World {
    /// Well-formed: identities are pairwise distinct.
    pub open spec fn wf(self) -> bool {
        unique_ids(self@)
    }

    /// An empty store.
    pub fn new() -> (r: World)
        ensures
            r@ == Seq::<Entity>::empty(),
            r.wf(),
    {
        World { entities: Vec::new() }
    }

    /// Decide well-formedness, for callers that cannot establish it any other
    /// way: true exactly when the held identities are pairwise distinct.
    pub fn ids_unique(&self) -> (r: bool)
        ensures
            r == self.wf(),
    {
        let n = self.entities.len();
        let mut i: usize = 0;
        while i < n
            invariant
                n == self@.len(),
                i <= n,
                forall|p: int, q: int|
                    0 <= p < q < self@.len() && p < i ==> self@[p].id != self@[q].id,
            decreases n - i,
        {
            let mut j: usize = i + 1;
            while j < n
                invariant
                    n == self@.len(),
                    i < n,
                    i < j <= n,
                    forall|q: int| i < q < j ==> self@[i as int].id != self@[q].id,
                decreases n - j,
            {
                if self.entities[i].id == self.entities[j].id {
                    proof {
                        assert(!unique_ids(self@));
                    }
                    return false;
                }
                j += 1;
            }
            i += 1;
        }
        true
    }

    /// The lowest index holding identity `id`, if any.
    fn find_index(&self, id: u128) -> (r: Option<usize>)
        ensures
            match r {
                Some(i) => i < self@.len() && self@[i as int].id == id,
                None => !contains_id(self@, id),
            },
    {
        let mut i: usize = 0;
        while i < self.entities.len()
            invariant
                i <= self@.len(),
                forall|j: int| 0 <= j < i ==> self@[j].id != id,
            decreases self@.len() - i,
        {
            if self.entities[i].id == id {
                return Some(i);
            }
            i += 1;
        }
        None
    }

    /// Look an entity up by identity.
    pub fn get(&self, id: u128) -> (r: Option<&Entity>)
        requires
            self.wf(),
        ensures
            match r {
                Some(e) => contains_id(self@, id) && *e == entity_for(self@, id),
                None => !contains_id(self@, id),
            },
    {
        match self.find_index(id) {
            Some(i) => {
                proof {
                    lemma_index_of_id_unique(self@, i as int);
                }
                Some(&self.entities[i])
            },
            None => None,
        }
    }

    /// Insert `entity` under its identity, overwriting any entry already held
    /// under the same identity (last write wins; no merge).
    pub fn add_entity(&mut self, entity: Entity)
        requires
            old(self).wf(),
        ensures
            final(self).wf(),
            contains_id(old(self)@, entity.id) ==> final(self)@ == old(self)@.update(
                index_of_id(old(self)@, entity.id),
                entity,
            ),
            !contains_id(old(self)@, entity.id) ==> final(self)@ == old(self)@.push(entity),
    {
        match self.find_index(entity.id) {
            Some(i) => {
                proof {
                    lemma_index_of_id_unique(self@, i as int);
                }
                self.entities.set(i, entity);
                proof {
                    assert forall|p: int, q: int| 0 <= p < q < self@.len() implies self@[p].id
                        != self@[q].id by {
                        assert(old(self)@[p].id != old(self)@[q].id);
                    }
                }
            },
            None => {
                self.entities.push(entity);
                proof {
                    assert forall|p: int, q: int| 0 <= p < q < self@.len() implies self@[p].id
                        != self@[q].id by {
                        if q < self@.len() - 1 {
                            assert(old(self)@[p].id != old(self)@[q].id);
                        } else {
                            assert(!contains_id(old(self)@, entity.id));
                            assert(old(self)@[p].id != entity.id);
                        }
                    }
                }
            },
        }
    }

    /// Consume the batch, applying each event in order to its target entity.
    /// Processing stops at the first failure; events before it stay applied
    /// (no rollback), events after it are never applied. The batch vector is
    /// left empty either way.
    pub fn apply_events(&mut self, events: &mut Vec<Event>) -> (r: Result<(), EventApplyError>)
        requires
            old(self).wf(),
        ensures
            final(self).wf(),
            final(events)@.len() == 0,
            final(self)@ == apply_all_spec(old(self)@, old(events)@).0,
            r == apply_all_spec(old(self)@, old(events)@).1,
    {
        let ghost s0 = self@;
        let ghost evs = events@;
        let mut i: usize = 0;
        while i < events.len()
            invariant
                s0 == old(self)@,
                evs == old(events)@,
                i <= evs.len(),
                events@ == evs,
                self.wf(),
                self@.len() == s0.len(),
                apply_all_spec(s0, evs.take(i as int)) == (self@, Ok::<(), EventApplyError>(())),
            decreases evs.len() - i,
        {
            let ghost cur = self@;
            let event = events[i];
            let ghost prefix = evs.take(i as int);
            proof {
                assert(prefix + evs.skip(i as int) =~= evs);
                lemma_apply_all_concat(s0, prefix, evs.skip(i as int));
                assert(evs.skip(i as int)[0] == event);
                assert(evs.skip(i as int).len() > 0);
                assert(evs.take(i as int + 1) =~= prefix + seq![event]);
                lemma_apply_all_concat(s0, prefix, seq![event]);
                assert(seq![event].drop_first() =~= Seq::<Event>::empty());
            }
            match event {
                Event::Entity(id, entity_event) => {
                    match self.find_index(id) {
                        None => {
                            proof {
                                assert(apply_one_spec(cur, event) == Err::<
                                    Seq<Entity>,
                                    EventApplyError,
                                >(EventApplyError::EntityNotFound));
                                assert(apply_all_spec(cur, evs.skip(i as int)) == (
                                    cur,
                                    Err::<(), EventApplyError>(EventApplyError::EntityNotFound),
                                ));
                                assert(apply_all_spec(s0, evs) == (
                                    cur,
                                    Err::<(), EventApplyError>(EventApplyError::EntityNotFound),
                                ));
                            }
                            events.clear();
                            return Err(EventApplyError::EntityNotFound);
                        },
                        Some(j) => {
                            proof {
                                lemma_index_of_id_unique(cur, j as int);
                            }
                            let mut e = self.entities[j];
                            let res = e.apply_event(entity_event);
                            match res {
                                Ok(_) => {
                                    self.entities.set(j, e);
                                    proof {
                                        assert(apply_one_spec(cur, event) == Ok::<
                                            Seq<Entity>,
                                            EventApplyError,
                                        >(cur.update(j as int, e)));
                                        assert(apply_all_spec(
                                            cur.update(j as int, e),
                                            seq![event].drop_first(),
                                        ) == (cur.update(j as int, e), Ok::<(), EventApplyError>(
                                            (),
                                        )));
                                        assert(apply_all_spec(cur, seq![event]) == (
                                            self@,
                                            Ok::<(), EventApplyError>(()),
                                        ));
                                        assert(apply_all_spec(s0, evs.take(i as int + 1)) == (
                                            self@,
                                            Ok::<(), EventApplyError>(()),
                                        ));
                                        assert forall|p: int, q: int|
                                            0 <= p < q < self@.len() implies self@[p].id
                                            != self@[q].id by {
                                            assert(cur[p].id != cur[q].id);
                                        }
                                    }
                                },
                                Err(err) => {
                                    proof {
                                        assert(apply_one_spec(cur, event) == Err::<
                                            Seq<Entity>,
                                            EventApplyError,
                                        >(err));
                                        assert(apply_all_spec(cur, evs.skip(i as int)) == (
                                            cur,
                                            Err::<(), EventApplyError>(err),
                                        ));
                                        assert(apply_all_spec(s0, evs) == (
                                            cur,
                                            Err::<(), EventApplyError>(err),
                                        ));
                                    }
                                    events.clear();
                                    return Err(err);
                                },
                            }
                        },
                    }
                },
            }
            i += 1;
        }
        proof {
            assert(evs.take(i as int) =~= evs);
        }
        events.clear();
        Ok(())
    }
}

} // verus!
