//! Entities: an identity plus an owned bag of typed state.

use vstd::prelude::*;
use crate::component::{PhysicsObject, Transform};
use crate::event::{EntityEvent, EventApplyError};
use crate::vec3::Vec3;

verus! {

/// Relies on `uuid::Uuid::new_v4` for a fresh random version-4 UUID, returned
/// here as its 128-bit value. The value is random, but `new_v4` always ORs the
/// version and variant bits into it, so it is never zero; nothing more is
/// assumed of it. The call aborts the process only if the operating system's
/// randomness source fails.
#[verifier::external_body]
pub(crate) fn fresh_identity() -> (r: u128)
    ensures
        r != 0,
{
    uuid::Uuid::new_v4().as_u128()
}

/// Anything addressable by a 128-bit identity.
pub trait HasID {
    /// The identity, as contracts see it.
    spec fn id_spec(&self) -> u128;

    /// The identity.
    fn id(&self) -> (r: u128)
        ensures
            r == self.id_spec(),
    ;
}

/// A simulated object: an identity assigned once at construction, a
/// transform, and an optional physics component. The identity is never
/// changed by any operation of this crate.
#[derive(Clone, Copy, Debug)]
pub struct Entity {
    pub id: u128,
    pub transform: Transform,
    pub physics: Option<PhysicsObject>,
}

impl HasID for Entity {
    open spec fn id_spec(&self) -> u128 {
        self.id
    }

    fn id(&self) -> (r: u128) {
        self.id
    }
}

impl Entity {
    /// What applying `event` to this entity yields: the updated entity, with
    /// exactly one field overwritten, or the error that leaves it unchanged.
    pub open spec fn apply_spec(self, event: EntityEvent) -> Result<Entity, EventApplyError> {
        match event {
            EntityEvent::PositionChange { to } => Ok(
                Entity { transform: Transform { position: to }, ..self },
            ),
            EntityEvent::VelocityChange { to } => {
                if self.physics is Some {
                    Ok(Entity { physics: Some(PhysicsObject { velocity: to }), ..self })
                } else {
                    Err(EventApplyError::NoPhysics)
                }
            },
        }
    }

    /// The entity after `event`, where a failing event leaves it unchanged.
    pub open spec fn applied(self, event: EntityEvent) -> Entity {
        match self.apply_spec(event) {
            Ok(e) => e,
            Err(_) => self,
        }
    }

    /// A fresh entity: newly drawn identity, zeroed transform, no physics.
    /// The identity is a chance value, but it is never the nil identity.
    pub fn new() -> (r: Entity)
        ensures
            r.id != 0,
            r.transform.position == Vec3::zero_spec(),
            r.physics is None,
    {
        Entity {
            id: fresh_identity(),
            transform: Transform { position: Vec3::zero() },
            physics: None,
        }
    }

    /// Consuming builder step: set the physics slot.
    pub fn with_physics(self, physics: Option<PhysicsObject>) -> (r: Entity)
        ensures
            r == (Entity { physics, ..self }),
    {
        Entity { physics, ..self }
    }

    /// Apply one event to this entity, mutating exactly one field on success
    /// and nothing on failure. A position change always succeeds; a velocity
    /// change succeeds exactly when a physics component is present and fails
    /// with [`EventApplyError::NoPhysics`] otherwise.
    pub fn apply_event(&mut self, event: EntityEvent) -> (r: Result<(), EventApplyError>)
        ensures
            match old(self).apply_spec(event) {
                Ok(e) => r is Ok && *final(self) == e,
                Err(err) => r == Err::<(), EventApplyError>(err) && *final(self) == *old(self),
            },
            event is PositionChange ==> r is Ok
                && final(self).transform.position == event->PositionChange_to
                && final(self).physics == old(self).physics,
            event is VelocityChange && old(self).physics is Some ==> r is Ok
                && final(self).physics == Some(PhysicsObject { velocity: event->VelocityChange_to })
                && final(self).transform == old(self).transform,
            event is VelocityChange && old(self).physics is None
                ==> r == Err::<(), EventApplyError>(EventApplyError::NoPhysics)
                && *final(self) == *old(self),
            final(self).id == old(self).id,
    {
        match event {
            EntityEvent::PositionChange { to } => {
                self.transform.position = to;
                Ok(())
            },
            EntityEvent::VelocityChange { to } => {
                match &mut self.physics {
                    Some(physics) => {
                        physics.velocity = to;
                        Ok(())
                    },
                    None => Err(EventApplyError::NoPhysics),
                }
            },
        }
    }
}

/// An applied event never changes the identity and never adds or removes the
/// physics component.
pub proof fn lemma_applied_preserves_shape(e: Entity, event: EntityEvent)
    ensures
        e.applied(event).id == e.id,
        e.applied(event).physics is Some <==> e.physics is Some,
{
}

} // verus!
