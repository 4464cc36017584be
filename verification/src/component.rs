//! Per-entity data: the entry type a column is made of, the trait a value
//! type implements to be stored in the engine, and the kind registry that
//! hands out one column per registered kind.

use crate::entity::EntityIndex;
use crate::registry::distinct_kinds;
use crate::registry::find_kind;
use crate::registry::has_kind;
use crate::registry::index_of_kind;
use crate::registry::lemma_kind_at_position;
use crate::registry::lemma_lookup_push;
use crate::registry::lemma_lookup_update;
use crate::registry::spec_lookup;
use crate::storage::spec_insert;
use crate::storage::Storage;
use crate::EcsError;
use vstd::prelude::*;

verus! {

/// Must be implemented for all component types stored in the engine; the
/// associated type picks how values of the kind are laid out.
pub trait Component: Sized + Clone {
    type ComponentStorage: Storage<Component = Self>;
}

/// Entry in a column: an index either holds a value of the column's kind or
/// is a tombstone.
#[derive(Clone, Debug)]
pub enum ComponentEntry<T> {
    Empty,
    Entry(Box<T>),
}

impl<T> ComponentEntry<T> {
    /// The value this entry holds, if any.
    pub open spec fn value(&self) -> Option<T> {
        match self {
            ComponentEntry::Empty => None,
            ComponentEntry::Entry(b) => Some(**b),
        }
    }

    /// Borrows the internally held component mutably, or `None` for a
    /// tombstone.
    pub fn borrow_mut(&mut self) -> (r: Option<&mut Box<T>>)
        ensures
            r is Some <==> old(self).value() is Some,
            match r {
                Some(v) => {
                    &&& **v == old(self).value()->0
                    &&& final(self).value() == Some(**final(v))
                },
                None => *final(self) == *old(self),
            },
    {
        match self {
            ComponentEntry::Entry(val) => Some(val),
            _ => None,
        }
    }
}

/// Access to a column without knowing its kind: what the registry needs to
/// clear one slot across every registered column.
pub trait GenericComponentStorage: Sized {
    type Component;

    /// The sparse sequence of values the column holds.
    spec fn column(&self) -> Seq<Option<Self::Component>>;

    /// Sets the entry at the handle's slot to a tombstone; fails with
    /// `OutOfBounds` exactly when the slot lies beyond the column.
    fn remove(&mut self, index: EntityIndex) -> (r: Result<EntityIndex, EcsError>)
        ensures
            index.0 < old(self).column().len() ==> {
                &&& r == Ok::<EntityIndex, EcsError>(index)
                &&& final(self).column() == old(self).column().update(
                    index.0 as int,
                    None::<Self::Component>,
                )
            },
            index.0 >= old(self).column().len() ==> {
                &&& r == Err::<EntityIndex, EcsError>(EcsError::OutOfBounds)
                &&& *final(self) == *old(self)
            },
    ;
}

/// One registered column together with its access handles. Readers share
/// the column through `read`; a writer takes it exclusively through `write`,
/// which the borrow rules serialize against every other access.
#[derive(Debug)]
pub struct ComponentStore<T>(pub T);

impl<T: Storage> ComponentStore<T> {
    /// Takes the column for exclusive writing.
    pub fn write(&mut self) -> (r: &mut T)
        ensures
            *r == old(self).0,
            final(self).0 == *final(r),
    {
        &mut self.0
    }

    /// Takes the column for shared reading.
    pub fn read(&self) -> (r: &T)
        ensures
            *r == self.0,
    {
        &self.0
    }

    /// Takes the column for exclusive writing.
    pub fn get_mut_handle(&mut self) -> (r: &mut T)
        ensures
            *r == old(self).0,
            final(self).0 == *final(r),
    {
        &mut self.0
    }
}

impl<T: Storage> GenericComponentStorage for ComponentStore<T> {
    type Component = T::Component;

    open spec fn column(&self) -> Seq<Option<T::Component>> {
        self.0.entries()
    }

    fn remove(&mut self, index: EntityIndex) -> (r: Result<EntityIndex, EcsError>) {
        self.0.remove(index)
    }
}

/// The kind registry: one column per registered kind, keyed by a stable
/// kind identifier. Registration checks the kind-to-column correspondence
/// once; every later access relies on it by construction.
pub struct ComponentStorage<C: Component>(pub Vec<(u64, ComponentStore<C::ComponentStorage>)>);

impl<C: Component> ComponentStorage<C> {
    /// The registry's internal invariant: each kind is registered at most
    /// once.
    pub open spec fn wf(&self) -> bool {
        distinct_kinds(self.0@)
    }

    /// Whether the kind has been registered.
    pub open spec fn spec_has(&self, kind: u64) -> bool {
        has_kind(self.0@, kind)
    }

    /// The column registered under the kind.
    pub open spec fn column_of(&self, kind: u64) -> Seq<Option<C>>
        recommends
            self.spec_has(kind),
    {
        (spec_lookup(self.0@, kind)->0).0.entries()
    }

    /// The column at the given registration position.
    pub open spec fn col_at(&self, p: int) -> Seq<Option<C>>
        recommends
            0 <= p < self.0@.len(),
    {
        self.0@[p].1.0.entries()
    }

    /// Creates a new empty `ComponentStorage`.
    pub fn new() -> (r: ComponentStorage<C>)
        ensures
            r.wf(),
            r.0@ == Seq::<(u64, ComponentStore<C::ComponentStorage>)>::empty(),
    {
        ComponentStorage(Vec::new())
    }

    /// The number of registered kinds.
    pub fn len(&self) -> (r: usize)
        ensures
            r == self.0@.len(),
    {
        self.0.len()
    }

    /// Registers a new kind with an empty column, returning the column's
    /// length; fails with `DuplicateRegistration` exactly when the kind is
    /// already present.
    pub fn register_component(&mut self, kind: u64) -> (r: Result<usize, EcsError>)
        requires
            old(self).wf(),
        ensures
            final(self).wf(),
            old(self).spec_has(kind) ==> {
                &&& r == Err::<usize, EcsError>(EcsError::DuplicateRegistration)
                &&& *final(self) == *old(self)
            },
            !old(self).spec_has(kind) ==> {
                &&& r == Ok::<usize, EcsError>(0)
                &&& final(self).spec_has(kind)
                &&& final(self).column_of(kind) == Seq::<Option<C>>::empty()
                &&& forall|k2: u64|
                    k2 != kind ==> #[trigger] spec_lookup(final(self).0@, k2) == spec_lookup(
                        old(self).0@,
                        k2,
                    )
                &&& forall|k2: u64|
                    k2 != kind ==> (#[trigger] has_kind(final(self).0@, k2) <==> has_kind(
                        old(self).0@,
                        k2,
                    ))
            },
    {
        match find_kind(&self.0, kind) {
            Some(_) => Err(EcsError::DuplicateRegistration),
            None => {
                let compstrg = <C::ComponentStorage as Storage>::new();
                let len = compstrg.len();
                let componentstore = ComponentStore(compstrg);
                proof {
                    lemma_lookup_push(self.0@, kind, ComponentStore(compstrg));
                }
                self.0.push((kind, componentstore));
                Ok(len)
            },
        }
    }

    /// Places the value in the kind's column at the handle's slot, growing
    /// the column as needed; fails with `UnregisteredKind` exactly when the
    /// kind is absent. The registry checks no liveness: that belongs to the
    /// facade.
    pub fn add_component(&mut self, kind: u64, component: C, id: EntityIndex) -> (r: Result<
        EntityIndex,
        EcsError,
    >)
        requires
            old(self).wf(),
        ensures
            final(self).wf(),
            !old(self).spec_has(kind) ==> {
                &&& r == Err::<EntityIndex, EcsError>(EcsError::UnregisteredKind)
                &&& *final(self) == *old(self)
            },
            old(self).spec_has(kind) ==> {
                &&& r == Ok::<EntityIndex, EcsError>(id)
                &&& final(self).spec_has(kind)
                &&& final(self).column_of(kind) == spec_insert(
                    old(self).column_of(kind),
                    id.0 as int,
                    component,
                )
                &&& forall|k2: u64|
                    k2 != kind ==> #[trigger] spec_lookup(final(self).0@, k2) == spec_lookup(
                        old(self).0@,
                        k2,
                    )
                &&& forall|k2: u64|
                    k2 != kind ==> (#[trigger] has_kind(final(self).0@, k2) <==> has_kind(
                        old(self).0@,
                        k2,
                    ))
            },
    {
        match find_kind(&self.0, kind) {
            Some(i) => {
                let e = &mut self.0[i];
                let res = e.1.0.insert(id, component);
                proof {
                    assert(self.0@ =~= old(self).0@.update(
                        i as int,
                        (kind, self.0@[i as int].1),
                    ));
                    lemma_lookup_update(old(self).0@, i as int, kind, self.0@[i as int].1);
                }
                res
            },
            None => Err(EcsError::UnregisteredKind),
        }
    }

    /// Clears the kind's column at the handle's slot. Fails with
    /// `UnregisteredKind` when the kind is absent and with `OutOfBounds`
    /// when the slot lies beyond the column; clearing a slot that is in
    /// range but already empty succeeds as a no-op.
    pub fn remove_component(&mut self, kind: u64, id: EntityIndex) -> (r: Result<
        EntityIndex,
        EcsError,
    >)
        requires
            old(self).wf(),
        ensures
            final(self).wf(),
            !old(self).spec_has(kind) ==> {
                &&& r == Err::<EntityIndex, EcsError>(EcsError::UnregisteredKind)
                &&& *final(self) == *old(self)
            },
            old(self).spec_has(kind) && id.0 >= old(self).column_of(kind).len() ==> {
                &&& r == Err::<EntityIndex, EcsError>(EcsError::OutOfBounds)
                &&& final(self).0@ == old(self).0@
            },
            old(self).spec_has(kind) && id.0 < old(self).column_of(kind).len() ==> {
                &&& r == Ok::<EntityIndex, EcsError>(id)
                &&& final(self).spec_has(kind)
                &&& final(self).column_of(kind) == old(self).column_of(kind).update(
                    id.0 as int,
                    None::<C>,
                )
                &&& forall|k2: u64|
                    k2 != kind ==> #[trigger] spec_lookup(final(self).0@, k2) == spec_lookup(
                        old(self).0@,
                        k2,
                    )
                &&& forall|k2: u64|
                    k2 != kind ==> (#[trigger] has_kind(final(self).0@, k2) <==> has_kind(
                        old(self).0@,
                        k2,
                    ))
            },
    {
        match find_kind(&self.0, kind) {
            Some(i) => {
                let e = &mut self.0[i];
                let res = e.1.0.remove(id);
                proof {
                    if id.0 < old(self).column_of(kind).len() {
                        assert(self.0@ =~= old(self).0@.update(
                            i as int,
                            (kind, self.0@[i as int].1),
                        ));
                        lemma_lookup_update(old(self).0@, i as int, kind, self.0@[i as int].1);
                    } else {
                        assert(self.0@ =~= old(self).0@);
                    }
                }
                res
            },
            None => Err(EcsError::UnregisteredKind),
        }
    }

    /// Returns shared access to the kind's column; fails with
    /// `UnregisteredKind` exactly when the kind is absent.
    pub fn get(&self, kind: u64) -> (r: Result<&ComponentStore<C::ComponentStorage>, EcsError>)
        requires
            self.wf(),
        ensures
            self.spec_has(kind) ==> (r matches Ok(st) && *st == spec_lookup(self.0@, kind)->0),
            !self.spec_has(kind) ==> (r matches Err(e) && e == EcsError::UnregisteredKind),
    {
        match find_kind(&self.0, kind) {
            Some(i) => Ok(&self.0[i].1),
            None => Err(EcsError::UnregisteredKind),
        }
    }

    /// Returns exclusive access to the kind's column; fails with
    /// `UnregisteredKind` exactly when the kind is absent.
    pub fn get_mut(&mut self, kind: u64) -> (r: Result<
        &mut ComponentStore<C::ComponentStorage>,
        EcsError,
    >)
        requires
            old(self).wf(),
        ensures
            !old(self).spec_has(kind) ==> (r matches Err(e) && {
                &&& e == EcsError::UnregisteredKind
                &&& *final(self) == *old(self)
            }),
            old(self).spec_has(kind) ==> (r matches Ok(st) && {
                &&& *st == spec_lookup(old(self).0@, kind)->0
                &&& final(self).0@ == old(self).0@.update(
                    index_of_kind(old(self).0@, kind),
                    (kind, *final(st)),
                )
            }),
    {
        match find_kind(&self.0, kind) {
            Some(i) => Ok(&mut self.0[i].1),
            None => Err(EcsError::UnregisteredKind),
        }
    }

    /// Clears the slot in every registered column, in registration order.
    /// The loop is not transactional: if one column is too short, the
    /// operation fails with `OutOfBounds` and the columns registered before
    /// it stay cleared while the rest stay untouched. Callers that must not
    /// observe such a partial clear have to keep every column grown past the
    /// slot.
    pub fn clear_entity(&mut self, id: EntityIndex) -> (r: Result<(), EcsError>)
        requires
            old(self).wf(),
        ensures
            final(self).wf(),
            final(self).0@.len() == old(self).0@.len(),
            forall|p: int|
                0 <= p < old(self).0@.len() ==> (#[trigger] final(self).0@[p]).0 == old(
                    self,
                ).0@[p].0,
            r is Ok <==> (forall|p: int|
                0 <= p < old(self).0@.len() ==> (#[trigger] old(self).col_at(p)).len() > id.0),
            r is Ok ==> forall|p: int|
                0 <= p < old(self).0@.len() ==> #[trigger] final(self).col_at(p) == old(
                    self,
                ).col_at(p).update(id.0 as int, None::<C>),
            r is Err ==> r == Err::<(), EcsError>(EcsError::OutOfBounds) && exists|f: int|
                {
                    &&& 0 <= f < old(self).0@.len()
                    &&& old(self).col_at(f).len() <= id.0
                    &&& forall|p: int|
                        0 <= p < f ==> (#[trigger] old(self).col_at(p)).len() > id.0
                            && final(self).col_at(p) == old(self).col_at(p).update(
                            id.0 as int,
                            None::<C>,
                        )
                    &&& forall|p: int|
                        f <= p < old(self).0@.len() ==> #[trigger] final(self).0@[p] == old(
                            self,
                        ).0@[p]
                },
            forall|k: u64|
                #[trigger] has_kind(final(self).0@, k) <==> has_kind(old(self).0@, k),
            r is Ok <==> (forall|k: u64|
                #[trigger] has_kind(old(self).0@, k) ==> old(self).column_of(k).len() > id.0),
            r is Ok ==> forall|k: u64|
                #[trigger] has_kind(old(self).0@, k) ==> final(self).column_of(k) == old(
                    self,
                ).column_of(k).update(id.0 as int, None::<C>),
    {
        let mut p: usize = 0;
        while p < self.0.len()
            invariant
                old(self).wf(),
                self.0@.len() == old(self).0@.len(),
                p <= self.0@.len(),
                forall|q: int|
                    0 <= q < p ==> (#[trigger] old(self).col_at(q)).len() > id.0,
                forall|q: int|
                    0 <= q < p ==> (#[trigger] self.0@[q]).0 == old(self).0@[q].0 && self.col_at(q)
                        == old(self).col_at(q).update(id.0 as int, None::<C>),
                forall|q: int|
                    p <= q < self.0@.len() ==> #[trigger] self.0@[q] == old(self).0@[q],
            decreases self.0@.len() - p,
        {
            let ghost pre = self.0@;
            let e = &mut self.0[p];
            match e.1.remove(id) {
                Ok(_) => {},
                Err(_) => {
                    proof {
                        assert(self.0@ =~= pre);
                        assert(old(self).col_at(p as int).len() <= id.0);
                        assert(forall|q: int|
                            p as int <= q < old(self).0@.len() ==> #[trigger] self.0@[q] == old(
                                self,
                            ).0@[q]);
                        self.lemma_clear_kindwise(*old(self), id, p as int);
                        lemma_kind_at_position(old(self).0@, p as int);
                        let k = old(self).0@[p as int].0;
                        assert(has_kind(old(self).0@, k));
                        assert(old(self).column_of(k) == old(self).col_at(p as int));
                        assert(old(self).column_of(k).len() <= id.0);
                    }
                    return Err(EcsError::OutOfBounds);
                },
            }
            p = p + 1;
        }
        proof {
            self.lemma_clear_kindwise(*old(self), id, self.0@.len() as int);
        }
        Ok(())
    }

    /// Bridges the positional description of a clear pass (positions below
    /// `upto` cleared, the rest untouched) to the kind-indexed one.
    proof fn lemma_clear_kindwise(&self, prev: Self, id: EntityIndex, upto: int)
        requires
            prev.wf(),
            0 <= upto <= prev.0@.len(),
            self.0@.len() == prev.0@.len(),
            forall|q: int|
                0 <= q < upto ==> (#[trigger] self.0@[q]).0 == prev.0@[q].0 && self.col_at(q)
                    == prev.col_at(q).update(id.0 as int, None::<C>),
            forall|q: int| upto <= q < self.0@.len() ==> #[trigger] self.0@[q] == prev.0@[q],
        ensures
            self.wf(),
            forall|k: u64| #[trigger] has_kind(self.0@, k) <==> has_kind(prev.0@, k),
            forall|k: u64|
                #[trigger] has_kind(prev.0@, k) ==> {
                    let i = index_of_kind(prev.0@, k);
                    &&& 0 <= i < prev.0@.len()
                    &&& prev.column_of(k) == prev.col_at(i)
                    &&& (i < upto ==> self.column_of(k) == prev.column_of(k).update(
                        id.0 as int,
                        None::<C>,
                    ))
                    &&& (i >= upto ==> self.column_of(k) == prev.column_of(k))
                },
    {
        assert forall|q: int|
            0 <= q < self.0@.len() implies (#[trigger] self.0@[q]).0 == prev.0@[q].0 by {}
        assert forall|i: int, j: int|
            0 <= i < j < self.0@.len() implies (#[trigger] self.0@[i]).0 != (
        #[trigger] self.0@[j]).0 by {
            assert(prev.0@[i].0 != prev.0@[j].0);
        }
        assert forall|k: u64| #[trigger] has_kind(self.0@, k) <==> has_kind(prev.0@, k) by {
            if has_kind(self.0@, k) {
                let i = index_of_kind(self.0@, k);
                assert(self.0@[i].0 == k);
                lemma_kind_at_position(prev.0@, i);
            }
            if has_kind(prev.0@, k) {
                let i = index_of_kind(prev.0@, k);
                assert(prev.0@[i].0 == k);
                lemma_kind_at_position(self.0@, i);
            }
        }
        assert forall|k: u64| #[trigger] has_kind(prev.0@, k) implies {
            let i = index_of_kind(prev.0@, k);
            &&& 0 <= i < prev.0@.len()
            &&& prev.column_of(k) == prev.col_at(i)
            &&& (i < upto ==> self.column_of(k) == prev.column_of(k).update(
                id.0 as int,
                None::<C>,
            ))
            &&& (i >= upto ==> self.column_of(k) == prev.column_of(k))
        } by {
            let i = index_of_kind(prev.0@, k);
            assert(prev.0@[i].0 == k);
            lemma_kind_at_position(prev.0@, i);
            lemma_kind_at_position(self.0@, i);
            assert(self.0@[i].0 == k);
        }
    }
}

} // verus!
