use entity_core::component::PhysicsObject;
use entity_core::entity::Entity;
use entity_core::event::{EntityEvent, Event, EventApplyError};
use entity_core::vec3::Vec3;
use entity_core::world::World;

fn entity_with_id(id: u128) -> Entity {
    let mut e = Entity::new();
    e.id = id;
    e
}

#[test]
fn new_world_is_empty() {
    let w = World::new();
    assert_eq!(w.entities.len(), 0);
    assert!(w.get(7).is_none());
}

#[test]
fn add_entity_stores_under_its_identity() {
    let mut w = World::new();
    let e = entity_with_id(1);
    w.add_entity(e);
    assert_eq!(w.entities.len(), 1);
    let held = w.get(1).expect("entity should be present");
    assert_eq!(held.id, 1);
}

#[test]
fn add_entity_overwrites_on_the_same_identity() {
    let mut w = World::new();
    let first = entity_with_id(1);
    let mut second = entity_with_id(1);
    second.transform.position = Vec3::new(5, 5, 5);
    w.add_entity(first);
    w.add_entity(second);
    assert_eq!(w.entities.len(), 1);
    let held = w.get(1).expect("entity should be present");
    assert_eq!(held.transform.position, Vec3::new(5, 5, 5));
}

#[test]
fn apply_events_applies_the_whole_batch_in_order() {
    let mut w = World::new();
    w.add_entity(entity_with_id(1).with_physics(Some(PhysicsObject { velocity: Vec3::zero() })));
    let mut events = vec![
        Event::entity(1, EntityEvent::PositionChange { to: Vec3::new(1, 0, 0) }),
        Event::entity(1, EntityEvent::PositionChange { to: Vec3::new(2, 0, 0) }),
        Event::entity(1, EntityEvent::VelocityChange { to: Vec3::new(0, 3, 0) }),
    ];
    let r = w.apply_events(&mut events);
    assert_eq!(r, Ok(()));
    assert!(events.is_empty());
    let held = w.get(1).expect("entity should be present");
    assert_eq!(held.transform.position, Vec3::new(2, 0, 0));
    assert_eq!(held.physics, Some(PhysicsObject { velocity: Vec3::new(0, 3, 0) }));
}

#[test]
fn batch_stops_at_a_missing_identity_and_keeps_the_prefix() {
    let mut w = World::new();
    w.add_entity(entity_with_id(1));
    w.add_entity(entity_with_id(3));
    let mut events = vec![
        Event::entity(1, EntityEvent::PositionChange { to: Vec3::new(7, 0, 0) }),
        Event::entity(2, EntityEvent::PositionChange { to: Vec3::new(8, 0, 0) }),
        Event::entity(3, EntityEvent::PositionChange { to: Vec3::new(9, 0, 0) }),
    ];
    let r = w.apply_events(&mut events);
    // The second event targets a nonexistent identity: the call fails with
    // EntityNotFound, the first event stays applied, the third never runs.
    assert_eq!(r, Err(EventApplyError::EntityNotFound));
    assert!(events.is_empty());
    assert_eq!(w.get(1).unwrap().transform.position, Vec3::new(7, 0, 0));
    assert_eq!(w.get(3).unwrap().transform.position, Vec3::zero());
}

#[test]
fn freshly_drawn_identities_are_never_nil() {
    for _ in 0..32 {
        assert_ne!(Entity::new().id, 0);
    }
}

#[test]
fn batch_stops_at_the_nil_identity_and_keeps_the_prefix() {
    // A freshly drawn identity is never nil, so an event addressed to the nil
    // identity always misses: the first event stays applied, the batch fails
    // there, and the third event never runs.
    let a = Entity::new();
    let id_a = a.id;
    let mut w = World::new();
    w.add_entity(a);
    let mut events = vec![
        Event::entity(id_a, EntityEvent::PositionChange { to: Vec3::new(1000, 2000, 3000) }),
        Event::entity(0, EntityEvent::PositionChange { to: Vec3::new(4000, 5000, 6000) }),
        Event::entity(id_a, EntityEvent::PositionChange { to: Vec3::new(7000, 8000, 9000) }),
    ];
    let r = w.apply_events(&mut events);
    assert_eq!(r, Err(EventApplyError::EntityNotFound));
    assert!(events.is_empty());
    assert_eq!(w.get(id_a).unwrap().transform.position, Vec3::new(1000, 2000, 3000));
    assert!(w.get(0).is_none());
}

#[test]
fn batch_stops_at_a_velocity_change_without_physics() {
    let mut w = World::new();
    w.add_entity(entity_with_id(1));
    let mut events = vec![
        Event::entity(1, EntityEvent::PositionChange { to: Vec3::new(4, 0, 0) }),
        Event::entity(1, EntityEvent::VelocityChange { to: Vec3::new(0, 1, 0) }),
        Event::entity(1, EntityEvent::PositionChange { to: Vec3::new(6, 0, 0) }),
    ];
    let r = w.apply_events(&mut events);
    assert_eq!(r, Err(EventApplyError::NoPhysics));
    assert!(events.is_empty());
    // The prefix stays applied; the event after the failure never runs.
    assert_eq!(w.get(1).unwrap().transform.position, Vec3::new(4, 0, 0));
}

#[test]
fn empty_batch_is_a_successful_no_op() {
    let mut w = World::new();
    w.add_entity(entity_with_id(1));
    let mut events: Vec<Event> = Vec::new();
    assert_eq!(w.apply_events(&mut events), Ok(()));
    assert_eq!(w.get(1).unwrap().transform.position, Vec3::zero());
}

#[test]
fn ids_unique_detects_a_forged_duplicate() {
    let mut w = World::new();
    w.add_entity(entity_with_id(1));
    w.add_entity(entity_with_id(2));
    assert!(w.ids_unique());
    w.entities.push(entity_with_id(1));
    assert!(!w.ids_unique());
}
