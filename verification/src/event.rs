//! Events: immutable, addressed descriptions of intended state changes.

use vstd::prelude::*;
use crate::vec3::Vec3;

verus! {

/// Why applying an event failed. Terminal for the batch being applied, but an
/// ordinary recoverable value for the caller.
#[derive(Clone, Copy, Debug, PartialEq, Eq, Structural)]
pub enum EventApplyError {
    /// The event's target identity is absent from the world at apply time.
    EntityNotFound,
    /// A velocity change targeted an entity without a physics component.
    NoPhysics,
}

/// An intended change to a single entity's own state.
#[derive(Clone, Copy, Debug, PartialEq, Eq, Structural)]
pub enum EntityEvent {
    /// Overwrite the entity's position unconditionally.
    PositionChange { to: Vec3 },
    /// Overwrite the entity's velocity; requires a physics component.
    VelocityChange { to: Vec3 },
}

/// A state-change intent addressed to the entity with a given identity.
#[derive(Clone, Copy, Debug, PartialEq, Eq, Structural)]
pub enum Event {
    Entity(u128, EntityEvent),
}

impl Event {
    /// The identity the event is addressed to.
    pub open spec fn target(self) -> u128 {
        match self {
            Event::Entity(id, _) => id,
        }
    }

    /// The entity-level change the event carries.
    pub open spec fn payload(self) -> EntityEvent {
        match self {
            Event::Entity(_, event) => event,
        }
    }

    /// Address `event` to the entity with identity `entity`.
    pub fn entity(entity: u128, event: EntityEvent) -> (r: Event)
        ensures
            r == Event::Entity(entity, event),
    {
        Event::Entity(entity, event)
    }
}

} // verus!
