//! Storage and query engine for an entity-component data model: a
//! generational slot allocator, per-kind tombstoned columns, a hint-driven
//! merge-join over column iterators, and a singleton resource registry,
//! tied together by a validating facade.

pub mod component;
pub mod dense_component_storage;
pub mod entity;
pub mod iter;
pub mod management;
pub mod registry;
pub mod resource;
pub mod storage;

use crate::component::Component;
use crate::component::ComponentStorage;
use crate::entity::all_entries;
use crate::entity::can_deallocate;
use crate::entity::lemma_free_list_shorter;
use crate::entity::live_entries;
use crate::entity::spec_allocate;
use crate::entity::spec_deallocate;
use crate::entity::EntityAllocator;
use crate::entity::EntityIndex;
use crate::entity::EntityIterator;
use crate::entity::EntityIteratorLive;
use crate::iter::Iter;
use crate::registry::has_kind;
use crate::registry::index_of_kind;
use crate::registry::spec_lookup;
use crate::resource::Resource;
use crate::resource::ResourceMap;
use crate::resource::ResourceReadHandle;
use crate::resource::ResourceWriteHandle;
use crate::storage::spec_insert;
use crate::storage::Storage;
use vstd::prelude::*;

verus! {

/// Failure taxonomy shared by every fallible operation of the engine.
#[derive(Clone, Copy, PartialEq, Eq, Structural, Debug)]
pub enum EcsError {
    /// The handle's generation does not match its slot, or the slot is dead.
    StaleHandle,
    /// The named kind was never registered.
    UnregisteredKind,
    /// The named kind was already registered.
    DuplicateRegistration,
    /// The slot index lies beyond the column.
    OutOfBounds,
    /// A stored value did not match the kind it was registered under. The
    /// registry establishes the kind-to-column correspondence at registration
    /// and keeps it by construction, so no operation here returns this.
    DowncastFailure,
}

/// The engine's facade: the slot allocator, the per-kind columns and the
/// resource registry, with every entity-targeted call validated against the
/// allocator; `size` counts the currently live entities.
pub struct ECS<C: Component, R> {
    pub storage: ComponentStorage<C>,
    pub entity_list: EntityAllocator,
    pub resources: ResourceMap<R>,
    pub size: usize,
}

impl<C: Component, R> ECS<C, R> {
    /// The facade's internal invariant: each part is sound and `size`
    /// equals ever-allocated slots minus currently-free slots.
    pub open spec fn wf(&self) -> bool {
        &&& self.entity_list.wf()
        &&& self.storage.wf()
        &&& self.resources.wf()
        &&& self.size == self.entity_list.entity_list@.len() - self.entity_list.free_list@.len()
    }

    /// Creates an empty engine.
    pub fn new() -> (r: ECS<C, R>)
        ensures
            r.wf(),
            r.storage.0@ == Seq::<(u64, crate::component::ComponentStore<
                C::ComponentStorage,
            >)>::empty(),
            r.entity_list.entity_list@ == Seq::<crate::entity::Entry>::empty(),
            r.entity_list.free_list@ == Seq::<usize>::empty(),
            r.resources.map@ == Seq::<(u64, Resource<R>)>::empty(),
            r.size == 0,
    {
        ECS {
            storage: ComponentStorage::new(),
            entity_list: EntityAllocator::new(),
            size: 0,
            resources: ResourceMap::default(),
        }
    }

    /// Allocates a new empty entity, returning its `EntityIndex`.
    pub fn allocate_new_entity(&mut self) -> (r: EntityIndex)
        requires
            old(self).wf(),
            old(self).entity_list.free_list@.len() == 0 ==> old(
                self,
            ).entity_list.entity_list@.len() < usize::MAX,
            old(self).entity_list.free_list@.len() > 0 ==> old(self).entity_list.entity_list@[old(
                self,
            ).entity_list.free_list@.last() as int].generation < u64::MAX,
        ensures
            final(self).wf(),
            ({
                let (slots, free, idx) = spec_allocate(
                    old(self).entity_list.entity_list@,
                    old(self).entity_list.free_list@,
                );
                &&& final(self).entity_list.entity_list@ == slots
                &&& final(self).entity_list.free_list@ == free
                &&& r == idx
            }),
            final(self).size == old(self).size + 1,
            final(self).storage == old(self).storage,
            final(self).resources == old(self).resources,
            can_deallocate(final(self).entity_list.entity_list@, r),
    {
        let n = self.entity_list.entity_list.len();
        proof {
            assert(self.size <= n);
        }
        self.size = self.size + 1;
        let entity = self.entity_list.allocate();
        entity
    }

    /// Deallocates the handle's entity: marks its slot dead, parks the slot
    /// index on the free list, and asks every registered column to clear
    /// that slot, in registration order. Fails with `StaleHandle` when the
    /// handle does not name the live occupant of its slot, leaving
    /// everything unchanged. The per-column clear loop is not transactional:
    /// if one column is too short, the operation fails with `OutOfBounds`
    /// after the slot is already dead, with the columns registered before it
    /// cleared and the rest untouched.
    pub fn deallocate_entity(&mut self, id: EntityIndex) -> (r: Result<(), EcsError>)
        requires
            old(self).wf(),
        ensures
            final(self).wf(),
            !can_deallocate(old(self).entity_list.entity_list@, id) ==> {
                &&& r == Err::<(), EcsError>(EcsError::StaleHandle)
                &&& *final(self) == *old(self)
            },
            can_deallocate(old(self).entity_list.entity_list@, id) ==> ({
                let (slots, free) = spec_deallocate(
                    old(self).entity_list.entity_list@,
                    old(self).entity_list.free_list@,
                    id,
                );
                &&& final(self).entity_list.entity_list@ == slots
                &&& final(self).entity_list.free_list@ == free
                &&& final(self).size == old(self).size - 1
                &&& final(self).resources == old(self).resources
                &&& final(self).storage.0@.len() == old(self).storage.0@.len()
                &&& forall|p: int|
                    0 <= p < old(self).storage.0@.len() ==> (#[trigger] final(self).storage.0@[p]).0 == old(self).storage.0@[p].0
                &&& (r is Ok <==> (forall|p: int|
                    0 <= p < old(self).storage.0@.len() ==> (#[trigger] old(
                        self,
                    ).storage.col_at(p)).len() > id.0))
                &&& (r is Ok ==> forall|p: int|
                    0 <= p < old(self).storage.0@.len() ==> #[trigger] final(self).storage.col_at(
                        p,
                    ) == old(self).storage.col_at(p).update(id.0 as int, None::<C>))
                &&& (forall|k: u64|
                    #[trigger] has_kind(final(self).storage.0@, k) <==> has_kind(
                        old(self).storage.0@,
                        k,
                    ))
                &&& (r is Ok <==> (forall|k: u64|
                    #[trigger] has_kind(old(self).storage.0@, k) ==> old(self).storage.column_of(
                        k,
                    ).len() > id.0))
                &&& (r is Ok ==> forall|k: u64|
                    #[trigger] has_kind(old(self).storage.0@, k) ==> final(self).storage.column_of(
                        k,
                    ) == old(self).storage.column_of(k).update(id.0 as int, None::<C>))
                &&& (r is Err ==> r == Err::<(), EcsError>(EcsError::OutOfBounds) && exists|f: int|
                    {
                        &&& 0 <= f < old(self).storage.0@.len()
                        &&& old(self).storage.col_at(f).len() <= id.0
                        &&& forall|p: int|
                            0 <= p < f ==> (#[trigger] old(self).storage.col_at(p)).len() > id.0
                                && final(self).storage.col_at(p) == old(self).storage.col_at(
                                p,
                            ).update(id.0 as int, None::<C>)
                        &&& forall|p: int|
                            f <= p < old(self).storage.0@.len() ==> #[trigger] final(self).storage.0@[p] == old(self).storage.0@[p]
                    })
            }),
    {
        if !(id.0 < self.entity_list.entity_list.len() && self.entity_list.entity_list[id.0].generation
            == id.1 && self.entity_list.entity_list[id.0].is_live) {
            return Err(EcsError::StaleHandle);
        }
        proof {
            lemma_free_list_shorter(
                old(self).entity_list.entity_list@,
                old(self).entity_list.free_list@,
                id.0 as int,
            );
        }
        let entity = self.entity_list.deallocate(id);
        match entity {
            Ok(_) => {
                self.size = self.size - 1;
                self.storage.clear_entity(id)
            },
            Err(e) => Err(e),
        }
    }

    /// Adds data of the given kind to the entity at the handle, provided the
    /// handle names the live occupant of its slot (`StaleHandle` otherwise)
    /// and the kind is registered (`UnregisteredKind` otherwise).
    pub fn add_component(&mut self, index: EntityIndex, kind: u64, component: C) -> (r: Result<
        EntityIndex,
        EcsError,
    >)
        requires
            old(self).wf(),
        ensures
            final(self).wf(),
            final(self).entity_list == old(self).entity_list,
            final(self).resources == old(self).resources,
            final(self).size == old(self).size,
            !can_deallocate(old(self).entity_list.entity_list@, index) ==> {
                &&& r == Err::<EntityIndex, EcsError>(EcsError::StaleHandle)
                &&& final(self).storage == old(self).storage
            },
            can_deallocate(old(self).entity_list.entity_list@, index) && !old(
                self,
            ).storage.spec_has(kind) ==> {
                &&& r == Err::<EntityIndex, EcsError>(EcsError::UnregisteredKind)
                &&& final(self).storage == old(self).storage
            },
            can_deallocate(old(self).entity_list.entity_list@, index) && old(
                self,
            ).storage.spec_has(kind) ==> {
                &&& r == Ok::<EntityIndex, EcsError>(index)
                &&& final(self).storage.spec_has(kind)
                &&& final(self).storage.column_of(kind) == spec_insert(
                    old(self).storage.column_of(kind),
                    index.0 as int,
                    component,
                )
                &&& forall|k2: u64|
                    k2 != kind ==> #[trigger] spec_lookup(final(self).storage.0@, k2)
                        == spec_lookup(old(self).storage.0@, k2)
            },
    {
        if index.0 < self.entity_list.entity_list.len()
            && self.entity_list.entity_list[index.0].generation == index.1
            && self.entity_list.entity_list[index.0].is_live {
            self.storage.add_component(kind, component, index)
        } else {
            Err(EcsError::StaleHandle)
        }
    }

    /// Registers a new kind with the engine, returning its empty column's
    /// length; fails with `DuplicateRegistration` exactly when the kind is
    /// already registered.
    pub fn register_new_component(&mut self, kind: u64) -> (r: Result<usize, EcsError>)
        requires
            old(self).wf(),
        ensures
            final(self).wf(),
            final(self).entity_list == old(self).entity_list,
            final(self).resources == old(self).resources,
            final(self).size == old(self).size,
            old(self).storage.spec_has(kind) ==> {
                &&& r == Err::<usize, EcsError>(EcsError::DuplicateRegistration)
                &&& final(self).storage == old(self).storage
            },
            !old(self).storage.spec_has(kind) ==> {
                &&& r == Ok::<usize, EcsError>(0)
                &&& final(self).storage.spec_has(kind)
                &&& final(self).storage.column_of(kind) == Seq::<Option<C>>::empty()
                &&& forall|k2: u64|
                    k2 != kind ==> #[trigger] spec_lookup(final(self).storage.0@, k2)
                        == spec_lookup(old(self).storage.0@, k2)
            },
    {
        self.storage.register_component(kind)
    }

    /// Removes data of the given kind from the entity at the handle,
    /// provided the handle names the live occupant of its slot
    /// (`StaleHandle` otherwise) and the kind is registered
    /// (`UnregisteredKind` otherwise); a slot beyond the column fails with
    /// `OutOfBounds`, while clearing a slot that is in range but already
    /// empty succeeds as a no-op.
    pub fn remove_component(&mut self, index: EntityIndex, kind: u64) -> (r: Result<
        EntityIndex,
        EcsError,
    >)
        requires
            old(self).wf(),
        ensures
            final(self).wf(),
            final(self).entity_list == old(self).entity_list,
            final(self).resources == old(self).resources,
            final(self).size == old(self).size,
            !can_deallocate(old(self).entity_list.entity_list@, index) ==> {
                &&& r == Err::<EntityIndex, EcsError>(EcsError::StaleHandle)
                &&& final(self).storage == old(self).storage
            },
            can_deallocate(old(self).entity_list.entity_list@, index) && !old(
                self,
            ).storage.spec_has(kind) ==> {
                &&& r == Err::<EntityIndex, EcsError>(EcsError::UnregisteredKind)
                &&& final(self).storage == old(self).storage
            },
            can_deallocate(old(self).entity_list.entity_list@, index) && old(
                self,
            ).storage.spec_has(kind) && index.0 >= old(self).storage.column_of(kind).len() ==> {
                &&& r == Err::<EntityIndex, EcsError>(EcsError::OutOfBounds)
                &&& final(self).storage.0@ == old(self).storage.0@
            },
            can_deallocate(old(self).entity_list.entity_list@, index) && old(
                self,
            ).storage.spec_has(kind) && index.0 < old(self).storage.column_of(kind).len() ==> {
                &&& r == Ok::<EntityIndex, EcsError>(index)
                &&& final(self).storage.spec_has(kind)
                &&& final(self).storage.column_of(kind) == old(self).storage.column_of(
                    kind,
                ).update(index.0 as int, None::<C>)
                &&& forall|k2: u64|
                    k2 != kind ==> #[trigger] spec_lookup(final(self).storage.0@, k2)
                        == spec_lookup(old(self).storage.0@, k2)
            },
    {
        if !(index.0 < self.entity_list.entity_list.len()
            && self.entity_list.entity_list[index.0].generation == index.1
            && self.entity_list.entity_list[index.0].is_live) {
            Err(EcsError::StaleHandle)
        } else {
            self.storage.remove_component(kind, index)
        }
    }

    /// Returns shared access to the kind's column; fails with
    /// `UnregisteredKind` exactly when the kind is absent.
    pub fn get(&self, kind: u64) -> (r: Result<&C::ComponentStorage, EcsError>)
        requires
            self.wf(),
        ensures
            self.storage.spec_has(kind) ==> (r matches Ok(col) && col.entries()
                == self.storage.column_of(kind)),
            !self.storage.spec_has(kind) ==> (r matches Err(e) && e == EcsError::UnregisteredKind),
    {
        match self.storage.get(kind) {
            Ok(store) => Ok(store.read()),
            Err(e) => Err(e),
        }
    }

    /// Returns exclusive access to the kind's column; fails with
    /// `UnregisteredKind` exactly when the kind is absent.
    pub fn get_mut(&mut self, kind: u64) -> (r: Result<&mut C::ComponentStorage, EcsError>)
        requires
            old(self).wf(),
        ensures
            final(self).entity_list == old(self).entity_list,
            final(self).resources == old(self).resources,
            final(self).size == old(self).size,
            !old(self).storage.spec_has(kind) ==> (r matches Err(e) && {
                &&& e == EcsError::UnregisteredKind
                &&& final(self).storage == old(self).storage
            }),
            old(self).storage.spec_has(kind) ==> (r matches Ok(col) && {
                &&& col.entries() == old(self).storage.column_of(kind)
                &&& final(self).storage.0@ == old(self).storage.0@.update(
                    index_of_kind(old(self).storage.0@, kind),
                    (kind, crate::component::ComponentStore(*final(col))),
                )
            }),
    {
        match self.storage.get_mut(kind) {
            Ok(store) => Ok(store.write()),
            Err(e) => Err(e),
        }
    }

    /// Returns an iterator over the live entities only.
    pub fn get_entity_iterator_live<'cs>(&'cs self) -> (r: EntityIteratorLive<'cs>)
        ensures
            r.entries() == live_entries(self.entity_list.entity_list@),
            r.pos() == 0,
    {
        self.entity_list.get_iter_live()
    }

    /// Returns an iterator over every entity slot, live or dead.
    pub fn get_entity_iterator<'cs>(&'cs self) -> (r: EntityIterator<'cs>)
        ensures
            r.entries() == all_entries(self.entity_list.entity_list@),
            r.pos() == 0,
    {
        self.entity_list.get_iter()
    }

    /// Takes the kind's resource for exclusive writing; fails with
    /// `UnregisteredKind` exactly when no resource of the kind exists.
    pub fn get_mut_resource(&mut self, kind: u64) -> (r: Result<
        ResourceWriteHandle<'_, R>,
        EcsError,
    >)
        requires
            old(self).wf(),
        ensures
            final(self).entity_list == old(self).entity_list,
            final(self).storage == old(self).storage,
            final(self).size == old(self).size,
            !old(self).resources.spec_has(kind) ==> (r matches Err(e) && {
                &&& e == EcsError::UnregisteredKind
                &&& final(self).resources == old(self).resources
            }),
            old(self).resources.spec_has(kind) ==> (r matches Ok(h) && {
                &&& *h.r == old(self).resources.spec_get(kind)->0
                &&& final(self).resources.map@ == old(self).resources.map@.update(
                    index_of_kind(old(self).resources.map@, kind),
                    (kind, Resource(*final(h.r))),
                )
                &&& final(self).resources.wf()
            }),
    {
        match self.resources.get_write_resource(kind) {
            Ok(x) => Ok(x),
            Err(e) => Err(e),
        }
    }

    /// Takes the kind's resource for shared reading; fails with
    /// `UnregisteredKind` exactly when no resource of the kind exists.
    pub fn get_resource(&self, kind: u64) -> (r: Result<ResourceReadHandle<'_, R>, EcsError>)
        requires
            self.wf(),
        ensures
            !self.resources.spec_has(kind) ==> (r matches Err(e) && e
                == EcsError::UnregisteredKind),
            self.resources.spec_has(kind) ==> (r matches Ok(h) && *h.r == self.resources.spec_get(
                kind,
            )->0),
    {
        match self.resources.get_read_resource(kind) {
            Ok(x) => Ok(x),
            Err(e) => Err(e),
        }
    }

    /// Removes and returns the kind's resource; fails with
    /// `UnregisteredKind` exactly when no resource of the kind exists.
    pub fn remove_resource(&mut self, kind: u64) -> (r: Result<Resource<R>, EcsError>)
        requires
            old(self).wf(),
        ensures
            final(self).wf(),
            final(self).entity_list == old(self).entity_list,
            final(self).storage == old(self).storage,
            final(self).size == old(self).size,
            !old(self).resources.spec_has(kind) ==> (r matches Err(e) && {
                &&& e == EcsError::UnregisteredKind
                &&& final(self).resources == old(self).resources
            }),
            old(self).resources.spec_has(kind) ==> (r matches Ok(res) && {
                &&& Some(res.0) == old(self).resources.spec_get(kind)
                &&& !final(self).resources.spec_has(kind)
                &&& forall|k2: u64|
                    k2 != kind ==> #[trigger] spec_lookup(final(self).resources.map@, k2)
                        == spec_lookup(old(self).resources.map@, k2)
            }),
    {
        match self.resources.remove_resource(kind) {
            Err(e) => Err(e),
            Ok(x) => Ok(x),
        }
    }

    /// Inserts a resource under the kind, replacing any previous value of
    /// that kind.
    pub fn insert_new_resource(&mut self, kind: u64, resource: R)
        requires
            old(self).wf(),
        ensures
            final(self).wf(),
            final(self).entity_list == old(self).entity_list,
            final(self).storage == old(self).storage,
            final(self).size == old(self).size,
            final(self).resources.spec_has(kind),
            final(self).resources.spec_get(kind) == Some(resource),
            forall|k2: u64|
                k2 != kind ==> #[trigger] spec_lookup(final(self).resources.map@, k2)
                    == spec_lookup(old(self).resources.map@, k2),
            forall|k2: u64|
                k2 != kind ==> (#[trigger] has_kind(final(self).resources.map@, k2) <==> has_kind(
                    old(self).resources.map@,
                    k2,
                )),
    {
        self.resources.insert_resource(kind, resource);
    }
}

} // verus!
