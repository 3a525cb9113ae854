use gears::ecs::query_system::{AccessType, ComponentQuery, WorldQueryExt};
use gears::ecs::world::{component_type_key, Component, Entity, World};

#[derive(Debug)]
#[allow(unused)]
struct TestComponent1(u32);
impl Component for TestComponent1 {}

#[derive(Debug)]
#[allow(unused)]
struct TestComponent2(String);
impl Component for TestComponent2 {}

#[test]
fn query_system_test_query_builder() {
    let mut world = World::new();
    let entity1 = world.create_entity();
    let entity2 = world.create_entity();

    let query = ComponentQuery::new()
        .read::<TestComponent1>(vec![entity1])
        .write::<TestComponent2>(vec![entity2]);

    assert_eq!(query.requests.len(), 2);
    assert_eq!(query.requests[0].access_type, AccessType::Read);
    assert_eq!(query.requests[1].access_type, AccessType::Write);
}

#[test]
fn query_system_test_resource_keys() {
    let mut world = World::new();
    let entity1 = world.create_entity();
    let entity2 = world.create_entity();

    let query = ComponentQuery::new()
        .read::<TestComponent1>(vec![entity1])
        .write::<TestComponent2>(vec![entity2]);

    let keys = query.get_resource_keys();
    assert_eq!(keys.len(), 2);
}

#[test]
fn query_system_test_empty_query() {
    let mut world = World::new();
    let empty_query = ComponentQuery::new();
    assert!(world.try_acquire_query_immediate(empty_query).is_some());
}

#[test]
fn query_system_test_concurrent_read_access() {
    let mut world = World::new();
    let entity1 = world.create_entity();
    world.add_component_type(entity1, component_type_key::<TestComponent1>());

    // Create two read queries for the same entity
    let query1 = ComponentQuery::new().read::<TestComponent1>(vec![entity1]);
    let query2 = ComponentQuery::new().read::<TestComponent1>(vec![entity1]);

    // Both read queries should succeed
    let resources1 = world.try_acquire_query_immediate(query1);
    let resources2 = world.try_acquire_query_immediate(query2);

    assert!(resources1.is_some(), "First read query should succeed");
    assert!(resources2.is_some(), "Second read query should succeed");
}

#[test]
fn query_system_test_write_conflicts() {
    let mut world = World::new();
    let entity1 = world.create_entity();
    world.add_component_type(entity1, component_type_key::<TestComponent1>());

    // Create two conflicting write queries
    let query1 = ComponentQuery::new().write::<TestComponent1>(vec![entity1]);
    let query2 = ComponentQuery::new().write::<TestComponent1>(vec![entity1]);

    // First query should succeed
    let resources1 = world.try_acquire_query_immediate(query1);
    assert!(resources1.is_some(), "First write query should succeed");

    // Second conflicting query should fail while first is active
    let resources2 = world.try_acquire_query_immediate(query2);
    assert!(
        resources2.is_none(),
        "Second write query should fail due to conflict"
    );

    // After releasing the first resources, a new query should succeed
    world.release(resources1.unwrap());
    let query3 = ComponentQuery::new().write::<TestComponent1>(vec![entity1]);
    let resources3 = world.try_acquire_query_immediate(query3);
    assert!(
        resources3.is_some(),
        "Third write query should succeed after first is dropped"
    );
}

#[test]
fn query_system_test_non_conflicting_entities() {
    let mut world = World::new();
    let entity1 = world.create_entity();
    let entity2 = world.create_entity();
    world.add_component_type(entity1, component_type_key::<TestComponent1>());
    world.add_component_type(entity2, component_type_key::<TestComponent1>());

    // Create two non-conflicting queries (different entities)
    let query1 = ComponentQuery::new().write::<TestComponent1>(vec![entity1]);
    let query2 = ComponentQuery::new().write::<TestComponent1>(vec![entity2]);

    // Both queries should succeed since they access different entities
    let resources1 = world.try_acquire_query_immediate(query1);
    let resources2 = world.try_acquire_query_immediate(query2);

    assert!(resources1.is_some(), "First query should succeed");
    assert!(
        resources2.is_some(),
        "Second query should succeed (different entity)"
    );
}

#[test]
fn query_system_test_cleanup() {
    let mut world = World::new();
    let entity = world.create_entity();
    world.add_component_type(entity, component_type_key::<TestComponent1>());

    let query = ComponentQuery::new().write::<TestComponent1>(vec![entity]);
    let _resources = world.try_acquire_query_immediate(query);

    // Should have active accesses
    assert!(world.active_query_count() > 0);

    // Clear all queries
    world.clear_active_queries();
    assert_eq!(world.active_query_count(), 0);
}

#[test]
fn query_system_unknown_entity_is_refused() {
    let mut world = World::new();
    let _entity = world.create_entity();
    let query = ComponentQuery::new().read::<TestComponent1>(vec![Entity(5)]);
    assert!(world.try_acquire_query_immediate(query).is_none());
    assert_eq!(world.active_query_count(), 0);
}

#[test]
fn query_system_read_blocks_write_but_not_read() {
    let mut world = World::new();
    let e = world.create_entity();
    world.add_component_type(e, component_type_key::<TestComponent1>());
    let reader = world
        .try_acquire_query_immediate(ComponentQuery::new().read::<TestComponent1>(vec![e]))
        .unwrap();
    assert!(world
        .try_acquire_query_immediate(ComponentQuery::new().write::<TestComponent1>(vec![e]))
        .is_none());
    let reader2 = world
        .try_acquire_query_immediate(ComponentQuery::new().read::<TestComponent1>(vec![e]))
        .unwrap();
    assert_eq!(world.active_query_count(), 1);
    world.release(reader);
    assert_eq!(world.active_query_count(), 1);
    world.release(reader2);
    assert_eq!(world.active_query_count(), 0);
    assert!(world
        .try_acquire_query_immediate(ComponentQuery::new().write::<TestComponent1>(vec![e]))
        .is_some());
}

#[test]
fn query_system_keys_are_sorted_and_deduplicated() {
    let mut world = World::new();
    let e0 = world.create_entity();
    let e1 = world.create_entity();
    let e2 = world.create_entity();
    let t = component_type_key::<TestComponent1>();
    world.add_component_type(e0, t);
    world.add_component_type(e1, t);
    world.add_component_type(e2, t);
    let query = ComponentQuery::new()
        .read_type(t, vec![e2, e0])
        .write_type(t, vec![e1, e0]);
    assert_eq!(query.get_resource_keys(), vec![(e2, t), (e0, t), (e1, t), (e0, t)]);
    // Entity e0 is asked for twice: the first request (a read) decides.
    assert_eq!(query.access_type_for((e0, t)), AccessType::Read);
    assert_eq!(query.access_type_for((e1, t)), AccessType::Write);
    let res = world.try_acquire_query_immediate(query).unwrap();
    assert_eq!(res.query_id(), 0);
    assert_eq!(res.resource_keys(), &vec![(e0, t), (e1, t), (e2, t)]);
    assert_eq!(world.active_query_count(), 3);
}

#[test]
fn query_system_read_all_uses_registered_components() {
    let mut world = World::new();
    let e0 = world.create_entity();
    let e1 = world.create_entity();
    let e2 = world.create_entity();
    world.add_component_type(e2, component_type_key::<TestComponent1>());
    world.add_component_type(e0, component_type_key::<TestComponent1>());
    world.add_component_type(e1, component_type_key::<TestComponent2>());
    world.add_component_type(e0, component_type_key::<TestComponent1>());
    let q = ComponentQuery::new().read_all::<TestComponent1>(&world);
    assert_eq!(q.requests.len(), 1);
    assert_eq!(q.requests[0].entities, vec![e2, e0]);
    let q = ComponentQuery::new().write_all_type(12345, &world);
    assert_eq!(q.requests.len(), 0);
    let t1 = component_type_key::<TestComponent1>();
    assert!(world.has_component_of_type(e2, t1));
    assert!(world.has_component_of_type(e0, t1));
    assert!(!world.has_component_of_type(e1, t1));
    assert!(world.has_component_of_type(e1, component_type_key::<TestComponent2>()));
    assert!(!world.has_component_of_type(Entity(3), t1));
}

#[test]
fn query_system_pending_query_waits_for_release() {
    let mut world = World::new();
    let e = world.create_entity();
    world.add_component_type(e, component_type_key::<TestComponent1>());
    let first = world
        .try_acquire_query_immediate(ComponentQuery::new().write::<TestComponent1>(vec![e]))
        .unwrap();
    let pending = world
        .begin_acquire_query(ComponentQuery::new().read::<TestComponent1>(vec![e]))
        .unwrap();
    assert!(world.poll_pending_query(&pending).is_none());
    world.release(first);
    let second = world.poll_pending_query(&pending).unwrap();
    assert_eq!(second.query_id(), pending.query_id());
    assert!(world
        .begin_acquire_query(ComponentQuery::new().read::<TestComponent1>(vec![Entity(9)]))
        .is_none());
}

#[test]
fn query_system_missing_component_is_refused() {
    let mut world = World::new();
    let e = world.create_entity();
    world.add_component_type(e, component_type_key::<TestComponent2>());
    assert!(!world.has_component_of_type(e, component_type_key::<TestComponent1>()));
    let query = ComponentQuery::new().write::<TestComponent1>(vec![e]);
    assert!(world.try_acquire_query_immediate(query).is_none());
    assert!(world
        .begin_acquire_query(ComponentQuery::new().read::<TestComponent1>(vec![e]))
        .is_none());
    assert!(world
        .try_acquire_query_immediate(ComponentQuery::new().read::<TestComponent2>(vec![e]))
        .is_some());
}
