//! A minimal entity-component simulation core.
//!
//! Entities carry a transform and an optional physics component and live in a
//! [`world::World`] keyed by a 128-bit identity. Per-tick systems read the
//! world and emit [`event::Event`]s; the world is the sole mutator and applies
//! an event batch sequentially, stopping at the first failure while keeping
//! the effects of the events already applied.

pub mod component;
pub mod entity;
pub mod event;
pub mod fixed;
pub mod systems;
pub mod vec3;
pub mod world;
