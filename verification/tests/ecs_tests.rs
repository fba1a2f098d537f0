use rtgc_siberian_cities::ecs::{
    generate_entity_id, Archetype, ComponentStorage, ConcreteComponentStorage, EcsManager, Entity,
};

#[test]
fn test_create_entity() {
    let mut ecs = EcsManager::new();
    let entity = ecs.create_entity();

    assert!(!entity.is_null());
    assert!(ecs.is_alive(entity));
}

#[test]
fn test_destroy_entity() {
    let mut ecs = EcsManager::new();
    let entity = ecs.create_entity();

    // the bookkeeping half of adding a component: its kind is recorded
    assert!(ecs.attach_component(entity, 1));
    assert!(ecs.is_alive(entity));

    ecs.destroy_entity(entity);
    assert!(!ecs.is_alive(entity));

    let new_entity = ecs.create_entity();
    assert_eq!(new_entity.id, entity.id);
    assert_ne!(new_entity.generation, entity.generation);
}

#[test]
fn entity_handles() {
    let null = Entity::null();
    assert!(null.is_null());
    assert_eq!(null.id, u32::MAX);
    let e = Entity::new(5);
    assert!(!e.is_null());
    assert_eq!(e.generation, 0);
    assert_eq!(e.index(), 5);
}

#[test]
fn entity_ids_come_from_the_counter() {
    let mut counter: u64 = 0;
    assert_eq!(generate_entity_id(&mut counter), 0);
    assert_eq!(generate_entity_id(&mut counter), 1);
    assert_eq!(counter, 2);
    let mut high: u64 = u64::MAX;
    assert_eq!(generate_entity_id(&mut high), u32::MAX);
    assert_eq!(high, 0);
    let mut wide: u64 = (1u64 << 32) + 7;
    assert_eq!(generate_entity_id(&mut wide), 7);
}

#[test]
fn fresh_entities_count_up_and_reuse_freed_slots() {
    let mut ecs = EcsManager::new();
    let a = ecs.create_entity();
    let b = ecs.create_entity();
    assert_eq!((a.id, b.id), (0, 1));
    assert_eq!(ecs.entity_count(), 2);
    ecs.destroy_entity(a);
    assert_eq!(ecs.entity_count(), 1);
    assert!(ecs.is_alive(b));
    let c = ecs.create_entity();
    assert_eq!(c.id, 0);
    assert_eq!(c.generation, 1);
    let d = ecs.create_entity();
    assert_eq!(d.id, 2);
    assert_eq!(ecs.entity_count(), 3);
}

#[test]
fn null_handle_is_ignored() {
    let mut ecs = EcsManager::new();
    let e = ecs.create_entity();
    ecs.destroy_entity(Entity::null());
    assert!(ecs.is_alive(e));
    assert!(!ecs.is_alive(Entity::null()));
    assert!(!ecs.attach_component(Entity::null(), 3));
    assert!(ecs.component_keys(Entity::null()).is_empty());
}

#[test]
fn component_kinds_are_recorded() {
    let mut ecs = EcsManager::new();
    let e = ecs.create_entity();
    assert!(ecs.attach_component(e, 9));
    assert!(ecs.attach_component(e, 4));
    assert!(ecs.attach_component(e, 9));
    let mut keys = ecs.component_keys(e);
    keys.sort();
    assert_eq!(keys, vec![4, 9]);
    assert!(ecs.detach_component(e, 9));
    assert_eq!(ecs.component_keys(e), vec![4]);
    ecs.destroy_entity(e);
    assert!(ecs.component_keys(e).is_empty());
}

#[test]
fn clear_forgets_entities() {
    let mut ecs = EcsManager::new();
    let a = ecs.create_entity();
    ecs.clear();
    assert!(!ecs.is_alive(a));
    assert_eq!(ecs.entity_count(), 0);
    let b = ecs.create_entity();
    assert_eq!(b.id, 1);
}

#[test]
fn archetype_keeps_sorted_kinds() {
    let arch = Archetype::new(vec![30, 10, 20]);
    assert_eq!(arch.component_types, vec![10, 20, 30]);
    assert!(arch.has_component(20));
    assert!(!arch.has_component(25));
    assert!(arch.entity_indices.is_empty());
    let same = Archetype::new(vec![20, 30, 10]);
    assert_eq!(arch.id, same.id);
    assert_ne!(Archetype::new(vec![1]).id, Archetype::new(vec![2]).id);
    assert_ne!(arch.id, Archetype::new(vec![10, 20]).id);
}

#[test]
fn storage_add_get_remove() {
    let mut storage: ConcreteComponentStorage<(i32, i32)> = ConcreteComponentStorage::new();
    storage.add(3, (1, 2));
    storage.add(0, (5, 6));
    assert_eq!(storage.get(3), Some(&(1, 2)));
    assert_eq!(storage.get(1), None);
    assert_eq!(storage.get(10), None);
    assert!(storage.has(0));
    assert_eq!(storage.len(), 2);
    storage.add(3, (7, 8));
    assert_eq!(storage.len(), 2);
    assert_eq!(storage.get(3), Some(&(7, 8)));
    if let Some(c) = storage.get_mut(0) {
        c.0 = 50;
    }
    assert_eq!(storage.get(0), Some(&(50, 6)));
    let listed: Vec<(usize, (i32, i32))> = storage.iter().into_iter().map(|(i, c)| (i, *c)).collect();
    assert_eq!(listed, vec![(3, (7, 8)), (0, (50, 6))]);
    storage.remove(3);
    assert!(!storage.has(3));
    assert_eq!(storage.len(), 1);
    storage.remove(99);
    assert_eq!(storage.len(), 1);
}

#[test]
fn entity_at_gives_live_handles_with_their_generation() {
    let mut ecs = EcsManager::new();
    let a = ecs.create_entity();
    assert_eq!(ecs.entity_at(0), Some(a));
    ecs.destroy_entity(a);
    assert_eq!(ecs.entity_at(0), None);
    let b = ecs.create_entity();
    assert_eq!(ecs.entity_at(0), Some(b));
    assert_eq!(b.generation, 1);
    assert_eq!(ecs.entity_at(1), None);
}
