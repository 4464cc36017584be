use ecs::component::ComponentEntry;
use ecs::component::ComponentStore;
use ecs::component::GenericComponentStorage;
use ecs::dense_component_storage::DenseComponentStorage;
use ecs::entity::EntityAllocator;
use ecs::iter::Iter;
use ecs::resource::ResourceMap;
use ecs::storage::Storage;
use ecs::EcsError;

#[derive(Clone, Debug, PartialEq)]
struct Marker {
    pub counter: u8,
}

fn marker(counter: u8) -> Marker {
    Marker { counter }
}

// Column growth: inserting at slot 5 leaves the column six entries long,
// with every never-written slot below still empty.
#[test]
fn column_growth_pads_with_empties() {
    let mut col: DenseComponentStorage<Marker> = DenseComponentStorage::new();
    col.insert((1, 0), marker(1)).unwrap();
    assert_eq!(col.len(), 2);
    col.insert((5, 0), marker(5)).unwrap();
    assert_eq!(col.len(), 6);
    assert!(matches!(col.get((0, 0)), ComponentEntry::Empty));
    assert!(matches!(col.get((1, 0)), ComponentEntry::Entry(_)));
    assert!(matches!(col.get((2, 0)), ComponentEntry::Empty));
    assert!(matches!(col.get((3, 0)), ComponentEntry::Empty));
    assert!(matches!(col.get((4, 0)), ComponentEntry::Empty));
    assert!(matches!(col.get((5, 0)), ComponentEntry::Entry(_)));
    // Beyond the column, `get` answers with an empty entry.
    assert!(matches!(col.get((6, 0)), ComponentEntry::Empty));
}

// Inserting into an occupied slot overwrites in place: the column keeps its
// length and no neighbour moves.
#[test]
fn column_insert_overwrites_in_place() {
    let mut col: DenseComponentStorage<Marker> = DenseComponentStorage::new();
    col.insert((0, 0), marker(1)).unwrap();
    col.insert((1, 0), marker(2)).unwrap();
    col.insert((2, 0), marker(3)).unwrap();
    col.insert((1, 0), marker(9)).unwrap();
    assert_eq!(col.len(), 3);
    let mut it = col.get_iter();
    assert_eq!(it.next_element(None).unwrap().0.counter, 1);
    assert_eq!(it.next_element(None).unwrap().0.counter, 9);
    assert_eq!(it.next_element(None).unwrap().0.counter, 3);
}

#[test]
fn column_remove_out_of_bounds() {
    let mut col: DenseComponentStorage<Marker> = DenseComponentStorage::new();
    col.insert((0, 0), marker(1)).unwrap();
    assert_eq!(col.remove((1, 0)).unwrap_err(), EcsError::OutOfBounds);
    assert_eq!(col.remove((0, 0)).unwrap(), (0, 0));
    assert!(matches!(col.get((0, 0)), ComponentEntry::Empty));
    assert_eq!(col.len(), 1);
}

#[test]
fn component_entry_borrow_mut() {
    let mut entry: ComponentEntry<Marker> = ComponentEntry::Entry(Box::new(marker(4)));
    if let Some(b) = entry.borrow_mut() {
        b.counter += 1;
    }
    match &entry {
        ComponentEntry::Entry(b) => assert_eq!(b.counter, 5),
        ComponentEntry::Empty => panic!("entry lost its value"),
    }
    let mut empty: ComponentEntry<Marker> = ComponentEntry::Empty;
    assert!(empty.borrow_mut().is_none());
}

#[test]
fn component_store_handles() {
    let mut store = ComponentStore(DenseComponentStorage::<Marker>::new());
    store.write().insert((0, 0), marker(1)).unwrap();
    store.get_mut_handle().insert((2, 0), marker(3)).unwrap();
    assert_eq!(store.read().len(), 3);
    // The kind-erased view clears one slot across the column.
    assert_eq!(store.remove((0, 0)).unwrap(), (0, 0));
    assert!(matches!(store.read().get((0, 0)), ComponentEntry::Empty));
    assert_eq!(store.remove((5, 0)).unwrap_err(), EcsError::OutOfBounds);
}

#[test]
fn allocator_reuses_most_recent_slot() {
    let mut alloc = EntityAllocator::new();
    let e0 = alloc.allocate();
    let e1 = alloc.allocate();
    let e2 = alloc.allocate();
    assert_eq!((e0, e1, e2), ((0, 0), (1, 0), (2, 0)));
    alloc.deallocate(e0).unwrap();
    alloc.deallocate(e2).unwrap();
    // Reuse is last-in, first-out: slot 2 comes back first, at the next
    // generation.
    assert_eq!(alloc.allocate(), (2, 1));
    assert_eq!(alloc.allocate(), (0, 1));
    // All slots live again: a fresh slot is appended.
    assert_eq!(alloc.allocate(), (3, 0));
}

#[test]
fn allocator_deallocate_checks_generation() {
    let mut alloc = EntityAllocator::new();
    let e0 = alloc.allocate();
    alloc.deallocate(e0).unwrap();
    let e0b = alloc.allocate();
    assert_eq!(e0b, (0, 1));
    // The stale handle names the slot's previous occupant.
    assert_eq!(alloc.deallocate(e0).unwrap_err(), EcsError::StaleHandle);
    // A handle for a slot never allocated is stale too.
    assert_eq!(alloc.deallocate((9, 0)).unwrap_err(), EcsError::StaleHandle);
    assert_eq!(alloc.deallocate(e0b).unwrap(), ());
}

#[test]
fn allocator_iterators_walk_slots() {
    let mut alloc = EntityAllocator::new();
    let _e0 = alloc.allocate();
    let e1 = alloc.allocate();
    let _e2 = alloc.allocate();
    alloc.deallocate(e1).unwrap();
    let mut live = alloc.get_iter_live();
    assert_eq!(live.next_element(None).unwrap().1, 0);
    assert_eq!(live.next_element(None).unwrap().1, 2);
    assert!(live.next_element(None).is_none());
    let mut all = alloc.get_iter();
    let first = all.next_element(None).unwrap();
    let second = all.next_element(None).unwrap();
    let third = all.next_element(None).unwrap();
    assert!(first.0.is_live && !second.0.is_live && third.0.is_live);
    assert_eq!((first.1, second.1, third.1), (0, 1, 2));
    assert!(all.next_element(None).is_none());
}

#[test]
fn resource_map_read_write_remove() {
    let mut map: ResourceMap<u64> = ResourceMap::default();
    map.insert_resource(3, 17);
    {
        let handle = map.get_write_resource(3).unwrap();
        *handle.r += 1;
    }
    assert_eq!(*map.get_read_resource(3).unwrap().r, 18);
    assert_eq!(
        map.get_read_resource(4).unwrap_err(),
        EcsError::UnregisteredKind
    );
    let mut removed = map.remove_resource(3).unwrap();
    assert_eq!(*removed.get().r, 18);
    {
        let handle = removed.get_mut();
        *handle.r = 20;
    }
    assert_eq!(*removed.get().r, 20);
    assert_eq!(
        map.remove_resource(3).unwrap_err(),
        EcsError::UnregisteredKind
    );
}
