//! Singleton resources: one value per registered kind, independent of any
//! entity, handed out through shared read and exclusive write handles.

use crate::registry::distinct_kinds;
use crate::registry::find_kind;
use crate::registry::has_kind;
use crate::registry::index_of_kind;
use crate::registry::lemma_lookup_push;
use crate::registry::lemma_lookup_remove;
use crate::registry::lemma_lookup_update;
use crate::registry::spec_lookup;
use crate::EcsError;
use vstd::prelude::*;

verus! {

/// Marker implemented by every entry the resource map can hold.
pub trait ResourceEntry {

}

/// Entry type for the resource map: one singleton value.
#[derive(Debug)]
pub struct Resource<T>(pub T);

impl<T> ResourceEntry for Resource<T> {

}

/// Shared read access to one resource.
#[derive(Debug)]
pub struct ResourceReadHandle<'l, T> {
    pub r: &'l T,
}

/// Exclusive write access to one resource.
#[derive(Debug)]
pub struct ResourceWriteHandle<'l, T> {
    pub r: &'l mut T,
}

impl<T> Resource<T> {
    /// Takes the resource for exclusive writing.
    pub fn get_mut(&mut self) -> (h: ResourceWriteHandle<'_, T>)
        ensures
            *h.r == old(self).0,
            final(self).0 == *final(h.r),
    {
        ResourceWriteHandle { r: &mut self.0 }
    }

    /// Takes the resource for shared reading.
    pub fn get(&self) -> (h: ResourceReadHandle<'_, T>)
        ensures
            *h.r == self.0,
    {
        ResourceReadHandle { r: &self.0 }
    }
}

/// Centralized storage for shared resources: at most one value per kind.
pub struct ResourceMap<R> {
    pub map: Vec<(u64, Resource<R>)>,
}

impl<R> ResourceMap<R> {
    /// The map's internal invariant: each kind holds at most one resource.
    pub open spec fn wf(&self) -> bool {
        distinct_kinds(self.map@)
    }

    /// Whether a resource is registered under the kind.
    pub open spec fn spec_has(&self, kind: u64) -> bool {
        has_kind(self.map@, kind)
    }

    /// The value registered under the kind, if any.
    pub open spec fn spec_get(&self, kind: u64) -> Option<R> {
        match spec_lookup(self.map@, kind) {
            Some(res) => Some(res.0),
            None => None,
        }
    }

    /// Inserts a resource under the kind, replacing any previous value of
    /// that kind.
    pub fn insert_resource(&mut self, kind: u64, resource: R)
        requires
            old(self).wf(),
        ensures
            final(self).wf(),
            final(self).spec_has(kind),
            final(self).spec_get(kind) == Some(resource),
            forall|k2: u64|
                k2 != kind ==> #[trigger] spec_lookup(final(self).map@, k2) == spec_lookup(
                    old(self).map@,
                    k2,
                ),
            forall|k2: u64|
                k2 != kind ==> (#[trigger] has_kind(final(self).map@, k2) <==> has_kind(
                    old(self).map@,
                    k2,
                )),
    {
        match find_kind(&self.map, kind) {
            Some(i) => {
                let e = &mut self.map[i];
                *e = (kind, Resource(resource));
                proof {
                    lemma_lookup_update(old(self).map@, i as int, kind, (
                        kind,
                        Resource(resource),
                    ).1);
                }
            },
            None => {
                proof {
                    lemma_lookup_push(self.map@, kind, Resource(resource));
                }
                self.map.push((kind, Resource(resource)));
            },
        }
    }

    /// Takes the kind's resource for exclusive writing; fails with
    /// `UnregisteredKind` exactly when no resource of the kind exists.
    pub fn get_write_resource(&mut self, kind: u64) -> (r: Result<
        ResourceWriteHandle<'_, R>,
        EcsError,
    >)
        requires
            old(self).wf(),
        ensures
            !old(self).spec_has(kind) ==> (r matches Err(e) && {
                &&& e == EcsError::UnregisteredKind
                &&& *final(self) == *old(self)
            }),
            old(self).spec_has(kind) ==> (r matches Ok(h) && {
                &&& *h.r == old(self).spec_get(kind)->0
                &&& final(self).map@ == old(self).map@.update(
                    index_of_kind(old(self).map@, kind),
                    (kind, Resource(*final(h.r))),
                )
                &&& final(self).wf()
            }),
    {
        match find_kind(&self.map, kind) {
            Some(i) => {
                let e = &mut self.map[i];
                Ok(ResourceWriteHandle { r: &mut e.1.0 })
            },
            None => Err(EcsError::UnregisteredKind),
        }
    }

    /// Takes the kind's resource for shared reading; fails with
    /// `UnregisteredKind` exactly when no resource of the kind exists.
    pub fn get_read_resource(&self, kind: u64) -> (r: Result<ResourceReadHandle<'_, R>, EcsError>)
        requires
            self.wf(),
        ensures
            !self.spec_has(kind) ==> (r matches Err(e) && e == EcsError::UnregisteredKind),
            self.spec_has(kind) ==> (r matches Ok(h) && *h.r == self.spec_get(kind)->0),
    {
        match find_kind(&self.map, kind) {
            Some(i) => Ok(ResourceReadHandle { r: &self.map[i].1.0 }),
            None => Err(EcsError::UnregisteredKind),
        }
    }

    /// Removes and returns the kind's resource; fails with
    /// `UnregisteredKind` exactly when no resource of the kind exists.
    pub fn remove_resource(&mut self, kind: u64) -> (r: Result<Resource<R>, EcsError>)
        requires
            old(self).wf(),
        ensures
            final(self).wf(),
            !old(self).spec_has(kind) ==> (r matches Err(e) && {
                &&& e == EcsError::UnregisteredKind
                &&& *final(self) == *old(self)
            }),
            old(self).spec_has(kind) ==> (r matches Ok(res) && {
                &&& Some(res.0) == old(self).spec_get(kind)
                &&& !final(self).spec_has(kind)
                &&& forall|k2: u64|
                    k2 != kind ==> #[trigger] spec_lookup(final(self).map@, k2) == spec_lookup(
                        old(self).map@,
                        k2,
                    )
                &&& forall|k2: u64|
                    k2 != kind ==> (#[trigger] has_kind(final(self).map@, k2) <==> has_kind(
                        old(self).map@,
                        k2,
                    ))
            }),
    {
        match find_kind(&self.map, kind) {
            Some(i) => {
                proof {
                    lemma_lookup_remove(self.map@, i as int, kind);
                }
                let pair = self.map.remove(i);
                Ok(pair.1)
            },
            None => Err(EcsError::UnregisteredKind),
        }
    }
}

impl<R> Default for ResourceMap<R> {
    /// An empty resource map.
    fn default() -> (r: ResourceMap<R>)
        ensures
            r.wf(),
            r.map@ == Seq::<(u64, Resource<R>)>::empty(),
    {
        ResourceMap { map: Vec::new() }
    }
}

} // verus!
