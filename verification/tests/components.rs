use entity_core::component::{Component, ComponentSlot, PhysicsObject, Transform};
use entity_core::vec3::Vec3;

#[test]
fn transform_erases_and_downcasts_back() {
    let t = Transform { position: Vec3::new(1, 2, 3) };
    let slot = t.erase();
    assert!(Transform::is_kind(&slot));
    let back = Transform::downcast(slot);
    assert_eq!(back, Some(t));
}

#[test]
fn physics_erases_and_downcasts_back() {
    let p = PhysicsObject { velocity: Vec3::new(-4, 5, -6) };
    let slot = p.erase();
    assert!(PhysicsObject::is_kind(&slot));
    let back = PhysicsObject::downcast(slot);
    assert_eq!(back, Some(p));
}

#[test]
fn downcast_to_the_wrong_kind_is_none() {
    let t = Transform { position: Vec3::zero() };
    let slot = t.erase();
    assert!(!PhysicsObject::is_kind(&slot));
    assert_eq!(PhysicsObject::downcast(slot), None);

    let p = PhysicsObject { velocity: Vec3::zero() };
    let slot = p.erase();
    assert!(!Transform::is_kind(&slot));
    assert_eq!(Transform::downcast(slot), None);
}

#[test]
fn slot_carries_the_value() {
    let p = PhysicsObject { velocity: Vec3::new(7, 8, 9) };
    match p.erase() {
        ComponentSlot::Physics(inner) => assert_eq!(inner.velocity, Vec3::new(7, 8, 9)),
        ComponentSlot::Transform(_) => panic!("erased into the wrong kind"),
    }
}
