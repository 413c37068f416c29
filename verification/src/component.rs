//! Typed per-entity state blocks and the capability to erase and recover them.
//!
//! A component kind supports a capability check ("does this erased slot hold a
//! value of my kind?") and a failable downcast from the erased form back to
//! the concrete type. The erased form is a sum over the kinds in scope; new
//! kinds extend the sum and implement [`Component`] without touching the code
//! that stores or routes erased slots.

use vstd::prelude::*;
use crate::vec3::Vec3;

verus! {

/// Per-entity placement state. Owned exclusively by its entity.
#[derive(Clone, Copy, Debug, PartialEq, Eq, Structural)]
pub struct Transform {
    pub position: Vec3,
}

/// Per-entity motion state. Optional: entities without it take no part in
/// physics-driven systems.
#[derive(Clone, Copy, Debug, PartialEq, Eq, Structural)]
pub struct PhysicsObject {
    pub velocity: Vec3,
}

/// A type-erased component value: the uniform storage form that every
/// component kind can be erased into and recovered from.
#[derive(Clone, Copy, Debug, PartialEq, Eq, Structural)]
pub enum ComponentSlot {
    Transform(Transform),
    Physics(PhysicsObject),
}

/// The capability every concrete component kind offers: identify its kind in
/// an erased slot and cast the slot back, failing softly on a kind mismatch.
pub trait Component: Sized {
    /// The erased form of this component value.
    spec fn erased_spec(self) -> ComponentSlot;

    /// Whether `slot` holds a value of this kind.
    spec fn kind_spec(slot: ComponentSlot) -> bool;

    /// Erase the concrete type into a uniform slot.
    fn erase(self) -> (slot: ComponentSlot)
        ensures
            slot == self.erased_spec(),
            Self::kind_spec(slot),
    ;

    /// Capability check: does `slot` hold a value of this kind?
    fn is_kind(slot: &ComponentSlot) -> (r: bool)
        ensures
            r == Self::kind_spec(*slot),
    ;

    /// Failable downcast: recover the concrete value, or `None` on a kind
    /// mismatch (never a hard failure).
    fn downcast(slot: ComponentSlot) -> (r: Option<Self>)
        ensures
            match r {
                Some(c) => Self::kind_spec(slot) && c.erased_spec() == slot,
                None => !Self::kind_spec(slot),
            },
    ;
}

impl Component for Transform {
    open spec fn erased_spec(self) -> ComponentSlot {
        ComponentSlot::Transform(self)
    }

    open spec fn kind_spec(slot: ComponentSlot) -> bool {
        slot is Transform
    }

    fn erase(self) -> (slot: ComponentSlot) {
        ComponentSlot::Transform(self)
    }

    fn is_kind(slot: &ComponentSlot) -> (r: bool) {
        match slot {
            ComponentSlot::Transform(_) => true,
            _ => false,
        }
    }

    fn downcast(slot: ComponentSlot) -> (r: Option<Self>) {
        match slot {
            ComponentSlot::Transform(t) => Some(t),
            _ => None,
        }
    }
}

impl Component for PhysicsObject {
    open spec fn erased_spec(self) -> ComponentSlot {
        ComponentSlot::Physics(self)
    }

    open spec fn kind_spec(slot: ComponentSlot) -> bool {
        slot is Physics
    }

    fn erase(self) -> (slot: ComponentSlot) {
        ComponentSlot::Physics(self)
    }

    fn is_kind(slot: &ComponentSlot) -> (r: bool) {
        match slot {
            ComponentSlot::Physics(_) => true,
            _ => false,
        }
    }

    fn downcast(slot: ComponentSlot) -> (r: Option<Self>) {
        match slot {
            ComponentSlot::Physics(p) => Some(p),
            _ => None,
        }
    }
}

} // verus!
