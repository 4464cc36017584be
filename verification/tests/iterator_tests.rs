use ecs::component::Component;
use ecs::dense_component_storage::DenseComponentIteratorMut;
use ecs::dense_component_storage::DenseComponentStorage;
use ecs::iter::Iter;
use ecs::storage::Storage;
use ecs::ECS;

const KIND_A: u64 = 1;
const KIND_B: u64 = 2;

#[derive(Clone, Debug, PartialEq)]
struct StubComponentA {
    pub counter: u8,
}

#[derive(Clone, Debug, PartialEq)]
struct StubComponentB {
    pub counter: u8,
}

#[derive(Clone, Debug, PartialEq)]
enum Stub {
    A(StubComponentA),
    B(StubComponentB),
}

impl Component for Stub {
    type ComponentStorage = DenseComponentStorage<Stub>;
}

fn stub_a(counter: u8) -> Stub {
    Stub::A(StubComponentA { counter })
}

fn stub_b(counter: u8) -> Stub {
    Stub::B(StubComponentB { counter })
}

fn counter_of(stub: &Stub) -> u8 {
    match stub {
        Stub::A(a) => a.counter,
        Stub::B(b) => b.counter,
    }
}

fn bump(stub: &mut Stub) {
    match stub {
        Stub::A(a) => a.counter += 1,
        Stub::B(b) => b.counter += 1,
    }
}

fn three_with_a(entity_manager: &mut ECS<Stub, u32>) {
    entity_manager.allocate_new_entity();
    entity_manager.allocate_new_entity();
    entity_manager.allocate_new_entity();
    entity_manager
        .register_new_component(KIND_A)
        .expect("unable to register new component");
    entity_manager
        .add_component((0, 0), KIND_A, stub_a(0))
        .expect("not registered");
    entity_manager
        .add_component((1, 0), KIND_A, stub_a(1))
        .expect("not registered");
    entity_manager
        .add_component((2, 0), KIND_A, stub_a(2))
        .expect("not registered");
}

#[test]
fn get_component_iterator() {
    let mut entity_manager: ECS<Stub, u32> = ECS::new();
    three_with_a(&mut entity_manager);
    let handle = entity_manager.get_mut(KIND_A).expect("not registered");
    let mut it = handle.get_mut_iter();
    assert_eq!(it.index(), 0)
}

#[test]
fn get_component_test() {
    let mut entity_manager: ECS<Stub, u32> = ECS::new();
    three_with_a(&mut entity_manager);
    {
        let comp = entity_manager.get_mut(KIND_A).expect("not registered");
        let mut it = comp.get_mut_iter();
        loop {
            if let Some(x) = it.next_element_mut(&mut *comp, None) {
                bump(x.0);
            } else {
                break;
            }
        }
    }
    let col = entity_manager.get(KIND_A).expect("not registered");
    let mut iw = col.get_iter().into_iterator_wrapper();
    let mut res: Vec<&Stub> = Vec::new();
    while let Some(v) = iw.next() {
        res.push(v);
    }
    assert_eq!(counter_of(res[0]), 1);
    assert_eq!(counter_of(res[1]), 2);
    assert_eq!(counter_of(res[2]), 3);
}

#[test]
fn iterator_test_singular() {
    let mut entity_manager: ECS<Stub, u32> = ECS::new();
    entity_manager.allocate_new_entity();
    entity_manager.allocate_new_entity();
    entity_manager.allocate_new_entity();
    entity_manager
        .register_new_component(KIND_A)
        .expect("unable to register new component");
    entity_manager
        .register_new_component(KIND_B)
        .expect("unable to register new component");
    entity_manager
        .add_component((0, 0), KIND_A, stub_a(0))
        .expect("not registered");
    entity_manager
        .add_component((2, 0), KIND_A, stub_a(0))
        .expect("not registered");
    entity_manager
        .add_component((1, 0), KIND_A, stub_a(0))
        .expect("not registered");
    entity_manager
        .add_component((1, 0), KIND_B, stub_b(100))
        .expect("not registered");
    let handle = entity_manager.get_mut(KIND_B).expect("not registered");
    let mut itb = handle.get_mut_iter();
    let result = itb.next_element_mut(&mut *handle, None);
    assert_eq!(result.is_none(), false);
    assert_eq!(counter_of(result.unwrap().0), 100);
    let result1 = itb.next_element_mut(&mut *handle, None);
    assert_eq!(result1.is_none(), true);
}

#[test]
fn iterator_join_test() {
    let mut entity_manager: ECS<Stub, u32> = ECS::new();
    entity_manager.allocate_new_entity();
    entity_manager.allocate_new_entity();
    entity_manager.allocate_new_entity();
    entity_manager
        .register_new_component(KIND_A)
        .expect("unable to register new component");
    entity_manager
        .register_new_component(KIND_B)
        .expect("unable to register new component");
    entity_manager
        .add_component((0, 0), KIND_A, stub_a(0))
        .expect("not registered");
    entity_manager
        .add_component((1, 0), KIND_A, stub_a(0))
        .expect("not registered");
    entity_manager
        .add_component((1, 0), KIND_B, stub_b(100))
        .expect("not registered");
    entity_manager
        .add_component((2, 0), KIND_A, stub_a(0))
        .expect("not registered");
    let ita = entity_manager.get(KIND_A).expect("not registered").get_iter();
    let itb = entity_manager.get(KIND_B).expect("not registered").get_iter();
    let joint = ita.join(itb);
    let mut jit = joint.into_iterator_wrapper();
    let res = jit.next();
    let unwrapped = res.unwrap();
    assert_eq!(counter_of(unwrapped.0), 0);
    assert_eq!(counter_of(unwrapped.1), 100);
}

#[test]
fn iterator_vec_test() {
    let mut entity_manager: ECS<Stub, u32> = ECS::new();
    three_with_a(&mut entity_manager);
    let ita = entity_manager.get(KIND_A).expect("not registered").get_iter();
    let mut jit = ita.into_iterator_wrapper();
    let mut result: Vec<&Stub> = Vec::new();
    while let Some(v) = jit.next() {
        result.push(v);
    }
    assert_eq!(result.len(), 3);
}

#[test]
fn iterator_joint_vec_test() {
    let mut entity_manager: ECS<Stub, u32> = ECS::new();
    three_with_a(&mut entity_manager);
    entity_manager
        .register_new_component(KIND_B)
        .expect("unable to register new component");
    entity_manager
        .add_component((0, 0), KIND_B, stub_b(0))
        .expect("not registered");
    entity_manager
        .add_component((1, 0), KIND_B, stub_b(100))
        .expect("not registered");
    entity_manager
        .add_component((2, 0), KIND_B, stub_b(0))
        .expect("not registered");
    let ita = entity_manager.get(KIND_A).expect("not registered").get_iter();
    let itb = entity_manager.get(KIND_B).expect("not registered").get_iter();
    let joint = ita.join(itb);
    let mut jit = joint.into_iterator_wrapper();
    let mut count = 0;
    while let Some(_) = jit.next() {
        count += 1;
    }
    assert_eq!(count, 3);
}

#[test]
fn iterator_joint_uneven_vec_test() {
    let mut entity_manager: ECS<Stub, u32> = ECS::new();
    three_with_a(&mut entity_manager);
    entity_manager
        .register_new_component(KIND_B)
        .expect("unable to register new component");
    entity_manager
        .add_component((1, 0), KIND_B, stub_b(100))
        .expect("not registered");
    let ita = entity_manager.get(KIND_A).expect("not registered").get_iter();
    let itb = entity_manager.get(KIND_B).expect("not registered").get_iter();
    let joint = ita.join(itb);
    let mut jit = joint.into_iterator_wrapper();
    let mut count = 0;
    while let Some(_) = jit.next() {
        count += 1;
    }
    assert_eq!(count, 1);
}

#[test]
fn entity_iterator_test() {
    let mut entity_manager: ECS<Stub, u32> = ECS::new();
    three_with_a(&mut entity_manager);
    let ent_it = entity_manager.get_entity_iterator_live();
    let ita = entity_manager.get(KIND_A).expect("not registered").get_iter();
    let jointea = ent_it.join(ita);
    let mut jointwrapper = jointea.into_iterator_wrapper();
    let mut count = 0;
    while let Some(_) = jointwrapper.next() {
        count += 1;
    }
    assert_eq!(count, 3);
}

#[test]
fn entity_iterator_live_only_test() {
    let mut entity_manager: ECS<Stub, u32> = ECS::new();
    let _entity1 = entity_manager.allocate_new_entity();
    let entity2 = entity_manager.allocate_new_entity();
    let _entity3 = entity_manager.allocate_new_entity();
    let _res = entity_manager.deallocate_entity(entity2).expect("Error when: ");
    let it = entity_manager.get_entity_iterator_live();
    let mut wrapper = it.into_iterator_wrapper();
    let mut count = 0;
    while let Some(_) = wrapper.next() {
        count += 1;
    }
    assert_eq!(count, 2);
}

#[test]
fn entity_iterator_joint_test() {
    let mut entity_manager: ECS<Stub, u32> = ECS::new();
    let entity1 = entity_manager.allocate_new_entity();
    let entity2 = entity_manager.allocate_new_entity();
    let entity3 = entity_manager.allocate_new_entity();
    entity_manager
        .register_new_component(KIND_A)
        .expect("unable to register new component");
    entity_manager
        .register_new_component(KIND_B)
        .expect("unable to register new component");
    entity_manager
        .add_component(entity1, KIND_A, stub_a(0))
        .expect("not registered");
    entity_manager
        .add_component(entity2, KIND_A, stub_a(0))
        .expect("not registered");
    entity_manager
        .add_component(entity2, KIND_B, stub_b(100))
        .expect("not registered");
    entity_manager
        .add_component(entity3, KIND_A, stub_a(0))
        .expect("not registered");
    let _res = entity_manager.deallocate_entity(entity2).expect("Error when: ");
    let it = entity_manager.get_entity_iterator_live();
    let ita = entity_manager.get(KIND_A).expect("not registered").get_iter();
    let jointiter = it.join(ita);
    let mut jiter = jointiter.into_iterator_wrapper();
    let mut count = 0;
    while let Some(_) = jiter.next() {
        count += 1;
    }
    assert_eq!(count, 2);
}

// The hint lets a caller skip straight past a long empty run.
#[test]
fn iterator_hint_skips_ahead() {
    let mut col: DenseComponentStorage<Stub> = DenseComponentStorage::new();
    col.insert((0, 0), stub_a(1)).unwrap();
    col.insert((50, 0), stub_a(2)).unwrap();
    col.insert((99, 0), stub_a(3)).unwrap();
    let mut it = col.get_iter();
    let jumped = it.next_element(Some(40)).unwrap();
    assert_eq!(jumped.1, 50);
    assert_eq!(counter_of(jumped.0), 2);
    // A hint behind the cursor does not move it backwards.
    let next = it.next_element(Some(10)).unwrap();
    assert_eq!(next.1, 99);
    assert!(it.next_element(None).is_none());
}

// A fresh cursor from the mutable iteration protocol also honours hints.
#[test]
fn mut_cursor_hint_and_new() {
    let mut col: DenseComponentStorage<Stub> = DenseComponentStorage::new();
    col.insert((2, 0), stub_a(5)).unwrap();
    col.insert((7, 0), stub_a(6)).unwrap();
    let mut cursor = DenseComponentIteratorMut::new();
    assert_eq!(cursor.index(), 0);
    let hit = cursor.next_element_mut(&mut col, Some(3)).unwrap();
    assert_eq!(hit.1, 7);
    bump(hit.0);
    assert_eq!(cursor.index(), 8);
    assert!(cursor.next_element_mut(&mut col, None).is_none());
    let again = col.get_iter().next_element(Some(7)).unwrap();
    assert_eq!(counter_of(again.0), 7);
}

// Swapping the operands of a join yields the same indices with the pair
// swapped.
#[test]
fn join_is_symmetric_in_indices() {
    let mut a: DenseComponentStorage<Stub> = DenseComponentStorage::new();
    let mut b: DenseComponentStorage<Stub> = DenseComponentStorage::new();
    a.insert((1, 0), stub_a(1)).unwrap();
    a.insert((4, 0), stub_a(4)).unwrap();
    a.insert((6, 0), stub_a(6)).unwrap();
    b.insert((4, 0), stub_b(40)).unwrap();
    b.insert((5, 0), stub_b(50)).unwrap();
    b.insert((6, 0), stub_b(60)).unwrap();
    let mut ab = a.get_iter().join(b.get_iter());
    let mut ba = b.get_iter().join(a.get_iter());
    let p1 = ab.next_element(None).unwrap();
    let q1 = ba.next_element(None).unwrap();
    assert_eq!(p1.1, 4);
    assert_eq!(q1.1, 4);
    assert_eq!(counter_of((p1.0).0), counter_of((q1.0).1));
    assert_eq!(counter_of((p1.0).1), counter_of((q1.0).0));
    let p2 = ab.next_element(None).unwrap();
    let q2 = ba.next_element(None).unwrap();
    assert_eq!(p2.1, 6);
    assert_eq!(q2.1, 6);
    assert!(ab.next_element(None).is_none());
    assert!(ba.next_element(None).is_none());
}

// Nested pairwise joins express a three-kind query.
#[test]
fn join_nests_associatively() {
    let mut a: DenseComponentStorage<Stub> = DenseComponentStorage::new();
    let mut b: DenseComponentStorage<Stub> = DenseComponentStorage::new();
    let mut c: DenseComponentStorage<Stub> = DenseComponentStorage::new();
    for i in 0..6usize {
        a.insert((i, 0), stub_a(i as u8)).unwrap();
    }
    b.insert((1, 0), stub_b(1)).unwrap();
    b.insert((3, 0), stub_b(3)).unwrap();
    b.insert((5, 0), stub_b(5)).unwrap();
    c.insert((3, 0), stub_a(30)).unwrap();
    c.insert((4, 0), stub_a(40)).unwrap();
    let mut joint = a.get_iter().join(b.get_iter()).join(c.get_iter());
    let hit = joint.next_element(None).unwrap();
    assert_eq!(hit.1, 3);
    assert_eq!(counter_of((hit.0).1), 30);
    assert_eq!(counter_of(((hit.0).0).0), 3);
    assert!(joint.next_element(None).is_none());
}
