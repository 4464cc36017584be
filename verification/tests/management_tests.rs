use ecs::management::EntityStorage;
use ecs::EcsError;

const KIND_A: u64 = 1;
const KIND_B: u64 = 2;

#[derive(Clone, Debug, PartialEq)]
struct StubComponentA {
    pub counter: u8,
}

#[test]
fn mod_initialise_ecs() {
    let entity_manager: EntityStorage<StubComponentA> = EntityStorage::new();
    assert_eq!(entity_manager.entity_list.len(), 0);
    assert_eq!(entity_manager.free_list.len(), 0);
    assert_eq!(entity_manager.storage.len(), 0);
}

#[test]
fn mod_create_new_empty_entity() {
    let mut entity_manager: EntityStorage<StubComponentA> = EntityStorage::new();
    let (entity, generation) = entity_manager.allocate_new_entity();
    assert_eq!(generation, 0);
    assert_eq!(entity, 0);
    assert_eq!(entity_manager.size, 1);
}

#[test]
fn mod_add_component_to_entity() {
    let mut entity_manager: EntityStorage<StubComponentA> = EntityStorage::new();
    let index = entity_manager.allocate_new_entity();
    entity_manager.register_new_component(KIND_A).unwrap();
    let (index1, gen) = entity_manager
        .add_component(index, KIND_A, StubComponentA { counter: 0 })
        .unwrap();
    assert_eq!(gen, 0);
    assert_eq!(index1, 0);
}

#[test]
fn mod_remove_component_from_entity() {
    let mut entity_manager: EntityStorage<StubComponentA> = EntityStorage::new();
    let index = entity_manager.allocate_new_entity();
    entity_manager.register_new_component(KIND_A).unwrap();
    let index = entity_manager
        .add_component(index, KIND_A, StubComponentA { counter: 0 })
        .unwrap();
    let (ind, gen) = entity_manager.remove_component(index, KIND_A).unwrap();
    assert_eq!(gen, 0);
    assert_eq!(ind, 0);
}

#[test]
fn mod_remove_entity_from_ecs() {
    let mut entity_manager: EntityStorage<StubComponentA> = EntityStorage::new();
    let index = entity_manager.allocate_new_entity();
    entity_manager.register_new_component(KIND_A).unwrap();
    let index = entity_manager
        .add_component(index, KIND_A, StubComponentA { counter: 0 })
        .unwrap();
    let result = entity_manager.deallocate_entity(index);
    assert!(result.is_ok());
}

#[test]
fn mod_register_new_component() {
    let mut entity_manager: EntityStorage<StubComponentA> = EntityStorage::new();
    let index = entity_manager.allocate_new_entity();
    entity_manager.register_new_component(KIND_A).unwrap();
    entity_manager
        .add_component(index, KIND_A, StubComponentA { counter: 0 })
        .unwrap();
    let fetched = entity_manager.fetch(index, KIND_A).unwrap().unwrap();
    assert_eq!(fetched.counter, 0);
}

#[test]
fn fetch_updates_in_place() {
    let mut entity_manager: EntityStorage<StubComponentA> = EntityStorage::new();
    let index = entity_manager.allocate_new_entity();
    entity_manager.register_new_component(KIND_A).unwrap();
    entity_manager
        .add_component(index, KIND_A, StubComponentA { counter: 3 })
        .unwrap();
    {
        let fetched = entity_manager.fetch(index, KIND_A).unwrap().unwrap();
        fetched.counter += 4;
    }
    let fetched = entity_manager.fetch(index, KIND_A).unwrap().unwrap();
    assert_eq!(fetched.counter, 7);
}

#[test]
fn fetch_reports_absent_and_stale() {
    let mut entity_manager: EntityStorage<StubComponentA> = EntityStorage::new();
    let index = entity_manager.allocate_new_entity();
    entity_manager.register_new_component(KIND_A).unwrap();
    assert!(entity_manager.fetch(index, KIND_A).unwrap().is_none());
    assert_eq!(
        entity_manager.fetch(index, KIND_B).unwrap_err(),
        EcsError::UnregisteredKind
    );
    entity_manager
        .add_component(index, KIND_A, StubComponentA { counter: 2 })
        .unwrap();
    entity_manager.remove_component(index, KIND_A).unwrap();
    // In range but cleared: still no value, with no error.
    assert!(entity_manager.fetch(index, KIND_A).unwrap().is_none());
    entity_manager.deallocate_entity(index).unwrap();
    assert_eq!(
        entity_manager.fetch(index, KIND_A).unwrap_err(),
        EcsError::StaleHandle
    );
}

#[test]
fn storage_duplicate_registration_fails() {
    let mut entity_manager: EntityStorage<StubComponentA> = EntityStorage::new();
    entity_manager.register_new_component(KIND_A).unwrap();
    assert_eq!(
        entity_manager.register_new_component(KIND_A).unwrap_err(),
        EcsError::DuplicateRegistration
    );
    entity_manager.register_new_component(KIND_B).unwrap();
    assert_eq!(entity_manager.storage.len(), 2);
}

#[test]
fn storage_remove_absent_component_is_noop() {
    let mut entity_manager: EntityStorage<StubComponentA> = EntityStorage::new();
    let e0 = entity_manager.allocate_new_entity();
    let e1 = entity_manager.allocate_new_entity();
    entity_manager.register_new_component(KIND_A).unwrap();
    entity_manager
        .add_component(e1, KIND_A, StubComponentA { counter: 9 })
        .unwrap();
    // Slot 0 is in range of the column but was never written: clearing it is
    // a no-op success.
    assert_eq!(entity_manager.remove_component(e0, KIND_A).unwrap(), e0);
    // Slot 1 still holds its value.
    let fetched = entity_manager.fetch(e1, KIND_A).unwrap().unwrap();
    assert_eq!(fetched.counter, 9);
}

#[test]
fn storage_remove_beyond_column_is_out_of_bounds() {
    let mut entity_manager: EntityStorage<StubComponentA> = EntityStorage::new();
    let e0 = entity_manager.allocate_new_entity();
    let e1 = entity_manager.allocate_new_entity();
    entity_manager.register_new_component(KIND_A).unwrap();
    entity_manager
        .add_component(e0, KIND_A, StubComponentA { counter: 1 })
        .unwrap();
    // The column spans only slot 0, so slot 1 lies beyond it.
    assert_eq!(
        entity_manager.remove_component(e1, KIND_A).unwrap_err(),
        EcsError::OutOfBounds
    );
}

#[test]
fn storage_deallocate_partial_clear_hazard() {
    let mut entity_manager: EntityStorage<StubComponentA> = EntityStorage::new();
    let e0 = entity_manager.allocate_new_entity();
    let e1 = entity_manager.allocate_new_entity();
    entity_manager.register_new_component(KIND_A).unwrap();
    entity_manager.register_new_component(KIND_B).unwrap();
    entity_manager
        .add_component(e1, KIND_A, StubComponentA { counter: 5 })
        .unwrap();
    entity_manager
        .add_component(e0, KIND_B, StubComponentA { counter: 6 })
        .unwrap();
    // Kind B's column spans only slot 0, so clearing entity 1 fails there,
    // after the slot is already dead and kind A's column already cleared.
    assert_eq!(
        entity_manager.deallocate_entity(e1).unwrap_err(),
        EcsError::OutOfBounds
    );
    assert!(!entity_manager.entity_list[e1.0].is_live);
    assert_eq!(entity_manager.size, 1);
    assert_eq!(
        entity_manager.fetch(e1, KIND_A).unwrap_err(),
        EcsError::StaleHandle
    );
}

#[test]
fn storage_generation_distinct_over_reuse() {
    let mut entity_manager: EntityStorage<StubComponentA> = EntityStorage::new();
    let mut handle = entity_manager.allocate_new_entity();
    let mut seen = vec![handle.1];
    for _ in 0..5 {
        entity_manager.deallocate_entity(handle).unwrap();
        handle = entity_manager.allocate_new_entity();
        assert_eq!(handle.0, 0);
        assert!(!seen.contains(&handle.1));
        seen.push(handle.1);
    }
    assert_eq!(seen, vec![0, 1, 2, 3, 4, 5]);
}

#[test]
fn storage_stale_handle_on_second_deallocate() {
    let mut entity_manager: EntityStorage<StubComponentA> = EntityStorage::new();
    let handle = entity_manager.allocate_new_entity();
    assert!(entity_manager.deallocate_entity(handle).is_ok());
    assert_eq!(
        entity_manager.deallocate_entity(handle).unwrap_err(),
        EcsError::StaleHandle
    );
}
