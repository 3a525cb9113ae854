use gears::ecs::query::{AccessType, ComponentQuery, WorldQueryExt};
use gears::ecs::world::{component_type_key, Component, World};

#[derive(Debug)]
#[allow(unused)]
struct TestComponent1(u32);
impl Component for TestComponent1 {}

#[derive(Debug)]
#[allow(unused)]
struct TestComponent2(String);
impl Component for TestComponent2 {}

/// Acquire a query the way a single thread does: start it, then take its
/// resources (nothing else holds any, so one attempt settles it).
fn acquire(world: &mut World, query: ComponentQuery) -> Option<gears::ecs::query::AcquiredResources> {
    let pending = world.start_acquire_query(query);
    world.poll_acquire_query(&pending)
}

#[test]
fn query_test_query_builder() {
    let mut world = World::new();
    let entity1 = world.create_entity();
    let entity2 = world.create_entity();

    let query = ComponentQuery::new()
        .read::<TestComponent1>(vec![entity1])
        .write::<TestComponent2>(vec![entity2]);

    assert_eq!(query.requests.len(), 2);
    assert_eq!(query.requests[0].access_type, AccessType::Read);
    assert_eq!(query.requests[1].access_type, AccessType::Write);
}

#[test]
fn query_test_resource_keys() {
    let mut world = World::new();
    let entity1 = world.create_entity();
    let entity2 = world.create_entity();

    let query = ComponentQuery::new()
        .read::<TestComponent1>(vec![entity1])
        .write::<TestComponent2>(vec![entity2]);

    let keys = query.get_resource_keys();
    assert_eq!(keys.len(), 2);
}

#[test]
fn query_test_empty_query() {
    let mut world = World::new();
    let empty_query = ComponentQuery::new();
    assert!(acquire(&mut world, empty_query).is_some());
}

#[test]
fn query_test_concurrent_read_access() {
    let mut world = World::new();
    let entity1 = world.create_entity();
    world.add_component_type(entity1, component_type_key::<TestComponent1>());

    // Create two read queries for the same entity
    let query1 = ComponentQuery::new().read::<TestComponent1>(vec![entity1]);
    let query2 = ComponentQuery::new().read::<TestComponent1>(vec![entity1]);

    // Both read queries should succeed
    let resources1 = acquire(&mut world, query1);
    let resources2 = acquire(&mut world, query2);

    assert!(resources1.is_some(), "First read query should succeed");
    assert!(resources2.is_some(), "Second read query should succeed");
}

#[test]
fn query_test_non_conflicting_entities() {
    let mut world = World::new();
    let entity1 = world.create_entity();
    let entity2 = world.create_entity();
    world.add_component_type(entity1, component_type_key::<TestComponent1>());
    world.add_component_type(entity2, component_type_key::<TestComponent1>());

    // Create two non-conflicting queries (different entities)
    let query1 = ComponentQuery::new().write::<TestComponent1>(vec![entity1]);
    let query2 = ComponentQuery::new().write::<TestComponent1>(vec![entity2]);

    // Both queries should succeed since they access different entities
    let resources1 = acquire(&mut world, query1);
    let resources2 = acquire(&mut world, query2);

    assert!(resources1.is_some(), "First query should succeed");
    assert!(
        resources2.is_some(),
        "Second query should succeed (different entity)"
    );
}

#[test]
fn query_test_cleanup() {
    let mut world = World::new();
    let entity = world.create_entity();
    world.add_component_type(entity, component_type_key::<TestComponent1>());

    let query = ComponentQuery::new().write::<TestComponent1>(vec![entity]);
    let _resources = acquire(&mut world, query);

    // Should have active accesses
    assert!(world.active_query_count() > 0);

    // Clear all queries
    world.clear_active_queries();
    assert_eq!(world.active_query_count(), 0);
}

#[test]
fn query_write_blocks_until_release() {
    let mut world = World::new();
    let entity1 = world.create_entity();
    world.add_component_type(entity1, component_type_key::<TestComponent1>());

    let query1 = ComponentQuery::new().write::<TestComponent1>(vec![entity1]);
    let resources1 = acquire(&mut world, query1).expect("first write query succeeds");

    // A second writer waits while the first holds the component.
    let query2 = ComponentQuery::new().write::<TestComponent1>(vec![entity1]);
    let pending = world.start_acquire_query(query2);
    assert!(world.poll_acquire_query(&pending).is_none());
    assert!(world.poll_acquire_query(&pending).is_none());

    // Once the first query lets go, the waiting one gets through.
    world.release_query(resources1);
    let resources2 = world.poll_acquire_query(&pending);
    assert!(resources2.is_some());
    assert_eq!(pending.query_id(), 1);
    assert_eq!(resources2.unwrap().query_id(), 1);
}
