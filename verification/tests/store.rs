use kabuto_explosion::components::{
    BoundCollider, Component, ComponentKind, Enemy, Kabuto, Shot, ShotCollider, Transform, Vec2,
    Velocity,
};
use kabuto_explosion::store::{Entity, EntityStore, Slot};

fn bare() -> Slot {
    Slot {
        alive: true,
        doomed: false,
        transform: None,
        velocity: None,
        enemy: None,
        kabuto: false,
        shot: false,
        shot_collider: false,
        bound_collider: false,
    }
}

fn place(x: i64, y: i64) -> Transform {
    Transform { translation: Vec2 { x, y }, scale: Vec2 { x: 10, y: 10 } }
}

#[test]
fn new_store_is_empty() {
    let store = EntityStore::new();
    assert_eq!(store.len(), 0);
    assert!(store.query(&[]).is_empty());
    assert!(!store.contains(Entity { index: 0 }));
    assert_eq!(store.get(Entity { index: 0 }), None);
}

#[test]
fn create_gives_names_in_rising_order() {
    let mut store = EntityStore::new();
    let a = store.create();
    let b = store.create();
    let c = store.create();
    assert_eq!(a, Entity { index: 0 });
    assert_eq!(b, Entity { index: 1 });
    assert_eq!(c, Entity { index: 2 });
    assert_eq!(store.len(), 3);
    assert_eq!(store.get(b), Some(bare()));
    assert!(store.contains(c));
    assert!(!store.contains(Entity { index: 3 }));
}

#[test]
fn attach_puts_each_kind_of_component_in_its_place() {
    let mut store = EntityStore::new();
    let e = store.create();
    assert!(store.attach(e, Component::Transform(place(1, 2))));
    assert!(store.attach(e, Component::Velocity(Velocity(Vec2 { x: 3, y: 4 }))));
    assert!(store.attach(e, Component::Enemy(Enemy { lifetime: 5 })));
    assert!(store.attach(e, Component::Kabuto(Kabuto)));
    assert!(store.attach(e, Component::Shot(Shot)));
    assert!(store.attach(e, Component::ShotCollider(ShotCollider)));
    assert!(store.attach(e, Component::BoundCollider(BoundCollider)));
    assert_eq!(
        store.get(e),
        Some(Slot {
            alive: true,
            doomed: false,
            transform: Some(place(1, 2)),
            velocity: Some(Velocity(Vec2 { x: 3, y: 4 })),
            enemy: Some(Enemy { lifetime: 5 }),
            kabuto: true,
            shot: true,
            shot_collider: true,
            bound_collider: true,
        })
    );
}

#[test]
fn attach_replaces_what_was_there() {
    let mut store = EntityStore::new();
    let e = store.create();
    store.attach(e, Component::Transform(place(1, 2)));
    store.attach(e, Component::Transform(place(7, 8)));
    assert_eq!(store.get(e).unwrap().transform, Some(place(7, 8)));
}

#[test]
fn attach_leaves_other_entities_alone() {
    let mut store = EntityStore::new();
    let a = store.create();
    let b = store.create();
    store.attach(b, Component::Shot(Shot));
    assert_eq!(store.get(a), Some(bare()));
    assert_eq!(store.get(b), Some(Slot { shot: true, ..bare() }));
}

#[test]
fn attach_to_a_missing_entity_does_nothing() {
    let mut store = EntityStore::new();
    let e = store.create();
    assert!(!store.attach(Entity { index: 5 }, Component::Shot(Shot)));
    assert_eq!(store.len(), 1);
    assert_eq!(store.get(e), Some(bare()));
}

#[test]
fn detach_takes_each_kind_of_component_out() {
    let mut store = EntityStore::new();
    let e = store.create();
    store.attach(e, Component::Transform(place(1, 2)));
    store.attach(e, Component::Velocity(Velocity(Vec2 { x: 3, y: 4 })));
    store.attach(e, Component::Enemy(Enemy { lifetime: 5 }));
    store.attach(e, Component::Kabuto(Kabuto));
    store.attach(e, Component::Shot(Shot));
    store.attach(e, Component::ShotCollider(ShotCollider));
    store.attach(e, Component::BoundCollider(BoundCollider));
    assert!(store.detach(e, ComponentKind::Velocity));
    assert_eq!(store.get(e).unwrap().velocity, None);
    assert_eq!(store.get(e).unwrap().transform, Some(place(1, 2)));
    assert!(store.detach(e, ComponentKind::Transform));
    assert!(store.detach(e, ComponentKind::Enemy));
    assert!(store.detach(e, ComponentKind::Kabuto));
    assert!(store.detach(e, ComponentKind::Shot));
    assert!(store.detach(e, ComponentKind::ShotCollider));
    assert!(store.detach(e, ComponentKind::BoundCollider));
    assert_eq!(store.get(e), Some(bare()));
    assert!(store.detach(e, ComponentKind::Shot));
    assert_eq!(store.get(e), Some(bare()));
}

#[test]
fn detach_from_a_missing_entity_does_nothing() {
    let mut store = EntityStore::new();
    assert!(!store.detach(Entity { index: 0 }, ComponentKind::Shot));
    assert_eq!(store.len(), 0);
}

#[test]
fn component_knows_its_kind() {
    assert_eq!(Component::Transform(place(0, 0)).kind(), ComponentKind::Transform);
    assert_eq!(Component::Velocity(Velocity(Vec2 { x: 0, y: 0 })).kind(), ComponentKind::Velocity);
    assert_eq!(Component::Kabuto(Kabuto).kind(), ComponentKind::Kabuto);
    assert_eq!(Component::Shot(Shot).kind(), ComponentKind::Shot);
    assert_eq!(Component::Enemy(Enemy { lifetime: 0 }).kind(), ComponentKind::Enemy);
    assert_eq!(Component::ShotCollider(ShotCollider).kind(), ComponentKind::ShotCollider);
    assert_eq!(Component::BoundCollider(BoundCollider).kind(), ComponentKind::BoundCollider);
}

#[test]
fn slot_tells_what_it_holds() {
    let slot = Slot { transform: Some(place(0, 0)), shot: true, ..bare() };
    assert!(slot.holds(ComponentKind::Transform));
    assert!(slot.holds(ComponentKind::Shot));
    assert!(!slot.holds(ComponentKind::Velocity));
    assert!(!slot.holds(ComponentKind::Enemy));
    assert!(!slot.holds(ComponentKind::Kabuto));
    assert!(!slot.holds(ComponentKind::ShotCollider));
    assert!(!slot.holds(ComponentKind::BoundCollider));
    assert!(slot.holds_all(&[]));
    assert!(slot.holds_all(&[ComponentKind::Shot, ComponentKind::Transform]));
    assert!(!slot.holds_all(&[ComponentKind::Shot, ComponentKind::Velocity]));
}

#[test]
fn destroyed_entity_stays_until_the_sweep() {
    let mut store = EntityStore::new();
    let a = store.create();
    let b = store.create();
    store.attach(a, Component::Shot(Shot));
    store.attach(b, Component::Shot(Shot));
    assert!(store.destroy(a));
    assert!(store.contains(a));
    assert_eq!(store.get(a), Some(Slot { shot: true, doomed: true, ..bare() }));
    assert_eq!(store.query(&[ComponentKind::Shot]), vec![a, b]);
    store.sweep();
    assert!(!store.contains(a));
    assert_eq!(store.get(a), None);
    assert_eq!(store.get(b), Some(Slot { shot: true, ..bare() }));
    assert_eq!(store.query(&[ComponentKind::Shot]), vec![b]);
    assert_eq!(store.len(), 2);
}

#[test]
fn destroying_twice_removes_once() {
    let mut store = EntityStore::new();
    let a = store.create();
    assert!(store.destroy(a));
    assert!(store.destroy(a));
    store.sweep();
    assert!(!store.contains(a));
    assert!(!store.destroy(a));
    store.sweep();
    assert_eq!(store.len(), 1);
}

#[test]
fn sweep_without_marks_changes_nothing() {
    let mut store = EntityStore::new();
    let a = store.create();
    store.attach(a, Component::Kabuto(Kabuto));
    store.sweep();
    assert_eq!(store.get(a), Some(Slot { kabuto: true, ..bare() }));
}

#[test]
fn a_name_is_not_given_out_again() {
    let mut store = EntityStore::new();
    let a = store.create();
    store.destroy(a);
    store.sweep();
    let b = store.create();
    assert_eq!(b, Entity { index: 1 });
    assert!(!store.contains(a));
    assert!(!store.attach(a, Component::Shot(Shot)));
    assert_eq!(store.get(a), None);
}

#[test]
fn query_finds_the_entities_with_every_kind_asked_for() {
    let mut store = EntityStore::new();
    let a = store.create();
    let b = store.create();
    let c = store.create();
    let d = store.create();
    store.attach(a, Component::Transform(place(0, 0)));
    store.attach(b, Component::Transform(place(0, 0)));
    store.attach(b, Component::Velocity(Velocity(Vec2 { x: 1, y: 1 })));
    store.attach(c, Component::Velocity(Velocity(Vec2 { x: 1, y: 1 })));
    store.attach(d, Component::Transform(place(0, 0)));
    store.attach(d, Component::Velocity(Velocity(Vec2 { x: 1, y: 1 })));
    assert_eq!(store.query(&[]), vec![a, b, c, d]);
    assert_eq!(store.query(&[ComponentKind::Transform]), vec![a, b, d]);
    assert_eq!(store.query(&[ComponentKind::Velocity]), vec![b, c, d]);
    assert_eq!(store.query(&[ComponentKind::Transform, ComponentKind::Velocity]), vec![b, d]);
    assert_eq!(store.query(&[ComponentKind::Velocity, ComponentKind::Transform]), vec![b, d]);
    assert!(store.query(&[ComponentKind::Enemy]).is_empty());
}

#[test]
fn query_passes_over_removed_entities() {
    let mut store = EntityStore::new();
    let a = store.create();
    let b = store.create();
    store.attach(a, Component::Enemy(Enemy { lifetime: 0 }));
    store.attach(b, Component::Enemy(Enemy { lifetime: 0 }));
    store.destroy(a);
    store.sweep();
    assert_eq!(store.query(&[ComponentKind::Enemy]), vec![b]);
    assert_eq!(store.query(&[]), vec![b]);
}
