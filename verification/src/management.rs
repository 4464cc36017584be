//! Self-contained entity storage: one struct holding the slot allocator,
//! the per-kind columns and the live-entity count, validating every
//! entity-targeted call against the allocator.

use crate::entity::can_deallocate;
use crate::entity::free_list_ok;
use crate::entity::lemma_free_list_ok_after_allocate;
use crate::entity::lemma_free_list_ok_after_deallocate;
use crate::entity::lemma_free_list_shorter;
use crate::entity::spec_allocate;
use crate::entity::spec_deallocate;
use crate::entity::Entry;
use crate::entity::EntityIndex;
use crate::registry::distinct_kinds;
use crate::registry::find_kind;
use crate::registry::has_kind;
use crate::registry::index_of_kind;
use crate::registry::lemma_kind_at_position;
use crate::registry::lemma_lookup_push;
use crate::registry::lemma_lookup_update;
use crate::registry::spec_lookup;
use crate::storage::spec_insert;
use crate::EcsError;
use vstd::prelude::*;

verus! {

/// Places the value at slot `k` of one raw column, padding with `None`
/// until `k` is reachable when the column is shorter.
fn column_insert<C>(col: &mut Vec<Option<C>>, k: usize, component: C)
    ensures
        final(col)@ == spec_insert(old(col)@, k as int, component),
{
    if k < col.len() {
        let slot = &mut col[k];
        *slot = Some(component);
        proof {
            assert(final(col)@ =~= spec_insert(old(col)@, k as int, component));
        }
    } else {
        while col.len() < k
            invariant
                old(col)@.len() <= col@.len() <= k,
                forall|j: int| 0 <= j < old(col)@.len() ==> col@[j] == old(col)@[j],
                forall|j: int|
                    old(col)@.len() <= j < col@.len() ==> (#[trigger] col@[j]) is None,
            decreases k - col.len(),
        {
            col.push(None);
        }
        col.push(Some(component));
        proof {
            assert(final(col)@ =~= spec_insert(old(col)@, k as int, component));
        }
    }
}

/// Entity storage combining a generational slot allocator with one column
/// per registered kind; `size` counts the currently live entities.
pub struct EntityStorage<C> {
    pub storage: Vec<(u64, Vec<Option<C>>)>,
    pub entity_list: Vec<Entry>,
    pub free_list: Vec<usize>,
    pub size: usize,
}

impl<C> EntityStorage<C> {
    /// The facade's internal invariant: the free list is sound, kinds are
    /// registered at most once, and `size` equals ever-allocated slots
    /// minus currently-free slots.
    pub open spec fn wf(&self) -> bool {
        &&& free_list_ok(self.entity_list@, self.free_list@)
        &&& distinct_kinds(self.storage@)
        &&& self.size == self.entity_list@.len() - self.free_list@.len()
    }

    /// Whether the kind has been registered.
    pub open spec fn spec_has(&self, kind: u64) -> bool {
        has_kind(self.storage@, kind)
    }

    /// The column registered under the kind.
    pub open spec fn column_of(&self, kind: u64) -> Seq<Option<C>>
        recommends
            self.spec_has(kind),
    {
        (spec_lookup(self.storage@, kind)->0)@
    }

    /// The column at the given registration position.
    pub open spec fn col_at(&self, p: int) -> Seq<Option<C>>
        recommends
            0 <= p < self.storage@.len(),
    {
        self.storage@[p].1@
    }

    /// Creates an empty `EntityStorage`.
    pub fn new() -> (r: EntityStorage<C>)
        ensures
            r.wf(),
            r.storage@ == Seq::<(u64, Vec<Option<C>>)>::empty(),
            r.entity_list@ == Seq::<Entry>::empty(),
            r.free_list@ == Seq::<usize>::empty(),
            r.size == 0,
    {
        EntityStorage {
            storage: Vec::new(),
            free_list: Vec::new(),
            entity_list: Vec::new(),
            size: 0,
        }
    }

    /// Allocates an entity and returns its `EntityIndex`: the most recently
    /// freed slot with its generation incremented, or a fresh slot at
    /// generation zero. Registered columns are left as they are; they grow
    /// on demand when data is added.
    pub fn allocate_new_entity(&mut self) -> (r: EntityIndex)
        requires
            old(self).wf(),
            old(self).free_list@.len() == 0 ==> old(self).entity_list@.len() < usize::MAX,
            old(self).free_list@.len() > 0 ==> old(self).entity_list@[old(
                self,
            ).free_list@.last() as int].generation < u64::MAX,
        ensures
            final(self).wf(),
            ({
                let (slots, free, idx) = spec_allocate(
                    old(self).entity_list@,
                    old(self).free_list@,
                );
                &&& final(self).entity_list@ == slots
                &&& final(self).free_list@ == free
                &&& r == idx
            }),
            final(self).size == old(self).size + 1,
            final(self).storage@ == old(self).storage@,
            can_deallocate(final(self).entity_list@, r),
    {
        proof {
            lemma_free_list_ok_after_allocate(old(self).entity_list@, old(self).free_list@);
        }
        let n = self.entity_list.len();
        proof {
            assert(self.size <= n);
        }
        self.size = self.size + 1;
        match self.free_list.pop() {
            Some(x) => {
                let g = self.entity_list[x].generation;
                let e = &mut self.entity_list[x];
                *e = Entry { is_live: true, generation: g + 1 };
                (x, g + 1)
            },
            None => {
                self.entity_list.push(Entry { is_live: true, generation: 0 });
                (self.entity_list.len() - 1, 0)
            },
        }
    }

    /// Registers a new kind with an empty column, returning the column's
    /// length; fails with `DuplicateRegistration` exactly when the kind is
    /// already present.
    pub fn register_new_component(&mut self, kind: u64) -> (r: Result<usize, EcsError>)
        requires
            old(self).wf(),
        ensures
            final(self).wf(),
            final(self).entity_list@ == old(self).entity_list@,
            final(self).free_list@ == old(self).free_list@,
            final(self).size == old(self).size,
            old(self).spec_has(kind) ==> {
                &&& r == Err::<usize, EcsError>(EcsError::DuplicateRegistration)
                &&& final(self).storage@ == old(self).storage@
            },
            !old(self).spec_has(kind) ==> {
                &&& r == Ok::<usize, EcsError>(0)
                &&& final(self).spec_has(kind)
                &&& final(self).column_of(kind) == Seq::<Option<C>>::empty()
                &&& forall|k2: u64|
                    k2 != kind ==> #[trigger] spec_lookup(final(self).storage@, k2) == spec_lookup(
                        old(self).storage@,
                        k2,
                    )
                &&& forall|k2: u64|
                    k2 != kind ==> (#[trigger] has_kind(final(self).storage@, k2) <==> has_kind(
                        old(self).storage@,
                        k2,
                    ))
            },
    {
        match find_kind(&self.storage, kind) {
            Some(_) => Err(EcsError::DuplicateRegistration),
            None => {
                let column: Vec<Option<C>> = Vec::new();
                proof {
                    lemma_lookup_push(self.storage@, kind, column);
                }
                self.storage.push((kind, column));
                Ok(0)
            },
        }
    }

    /// Places the value in the kind's column at the handle's slot, growing
    /// the column as needed. Fails with `StaleHandle` when the handle does
    /// not name the live occupant of its slot, and with `UnregisteredKind`
    /// when the kind is absent.
    pub fn add_component(&mut self, index: EntityIndex, kind: u64, component: C) -> (r: Result<
        EntityIndex,
        EcsError,
    >)
        requires
            old(self).wf(),
        ensures
            final(self).wf(),
            final(self).entity_list@ == old(self).entity_list@,
            final(self).free_list@ == old(self).free_list@,
            final(self).size == old(self).size,
            !can_deallocate(old(self).entity_list@, index) ==> {
                &&& r == Err::<EntityIndex, EcsError>(EcsError::StaleHandle)
                &&& final(self).storage@ == old(self).storage@
            },
            can_deallocate(old(self).entity_list@, index) && !old(self).spec_has(kind) ==> {
                &&& r == Err::<EntityIndex, EcsError>(EcsError::UnregisteredKind)
                &&& final(self).storage@ == old(self).storage@
            },
            can_deallocate(old(self).entity_list@, index) && old(self).spec_has(kind) ==> {
                &&& r == Ok::<EntityIndex, EcsError>(index)
                &&& final(self).spec_has(kind)
                &&& final(self).column_of(kind) == spec_insert(
                    old(self).column_of(kind),
                    index.0 as int,
                    component,
                )
                &&& forall|k2: u64|
                    k2 != kind ==> #[trigger] spec_lookup(final(self).storage@, k2) == spec_lookup(
                        old(self).storage@,
                        k2,
                    )
                &&& forall|k2: u64|
                    k2 != kind ==> (#[trigger] has_kind(final(self).storage@, k2) <==> has_kind(
                        old(self).storage@,
                        k2,
                    ))
            },
    {
        if !(index.0 < self.entity_list.len() && self.entity_list[index.0].generation == index.1
            && self.entity_list[index.0].is_live) {
            return Err(EcsError::StaleHandle);
        }
        match find_kind(&self.storage, kind) {
            Some(i) => {
                let e = &mut self.storage[i];
                column_insert(&mut e.1, index.0, component);
                proof {
                    assert(self.storage@ =~= old(self).storage@.update(
                        i as int,
                        (kind, self.storage@[i as int].1),
                    ));
                    lemma_lookup_update(
                        old(self).storage@,
                        i as int,
                        kind,
                        self.storage@[i as int].1,
                    );
                }
                Ok(index)
            },
            None => Err(EcsError::UnregisteredKind),
        }
    }

    /// Clears the kind's column at the handle's slot. Fails with
    /// `StaleHandle` when the handle does not name the live occupant of its
    /// slot, with `UnregisteredKind` when the kind is absent, and with
    /// `OutOfBounds` when the slot lies beyond the column; clearing a slot
    /// that is in range but already empty succeeds as a no-op.
    pub fn remove_component(&mut self, index: EntityIndex, kind: u64) -> (r: Result<
        EntityIndex,
        EcsError,
    >)
        requires
            old(self).wf(),
        ensures
            final(self).wf(),
            final(self).entity_list@ == old(self).entity_list@,
            final(self).free_list@ == old(self).free_list@,
            final(self).size == old(self).size,
            !can_deallocate(old(self).entity_list@, index) ==> {
                &&& r == Err::<EntityIndex, EcsError>(EcsError::StaleHandle)
                &&& final(self).storage@ == old(self).storage@
            },
            can_deallocate(old(self).entity_list@, index) && !old(self).spec_has(kind) ==> {
                &&& r == Err::<EntityIndex, EcsError>(EcsError::UnregisteredKind)
                &&& final(self).storage@ == old(self).storage@
            },
            can_deallocate(old(self).entity_list@, index) && old(self).spec_has(kind) && index.0
                >= old(self).column_of(kind).len() ==> {
                &&& r == Err::<EntityIndex, EcsError>(EcsError::OutOfBounds)
                &&& final(self).storage@ == old(self).storage@
            },
            can_deallocate(old(self).entity_list@, index) && old(self).spec_has(kind) && index.0
                < old(self).column_of(kind).len() ==> {
                &&& r == Ok::<EntityIndex, EcsError>(index)
                &&& final(self).spec_has(kind)
                &&& final(self).column_of(kind) == old(self).column_of(kind).update(
                    index.0 as int,
                    None::<C>,
                )
                &&& forall|k2: u64|
                    k2 != kind ==> #[trigger] spec_lookup(final(self).storage@, k2) == spec_lookup(
                        old(self).storage@,
                        k2,
                    )
                &&& forall|k2: u64|
                    k2 != kind ==> (#[trigger] has_kind(final(self).storage@, k2) <==> has_kind(
                        old(self).storage@,
                        k2,
                    ))
            },
    {
        if !(index.0 < self.entity_list.len() && self.entity_list[index.0].generation == index.1
            && self.entity_list[index.0].is_live) {
            return Err(EcsError::StaleHandle);
        }
        match find_kind(&self.storage, kind) {
            Some(i) => {
                let e = &mut self.storage[i];
                if index.0 < e.1.len() {
                    let slot = &mut e.1[index.0];
                    *slot = None;
                    proof {
                        assert(self.storage@ =~= old(self).storage@.update(
                            i as int,
                            (kind, self.storage@[i as int].1),
                        ));
                        lemma_lookup_update(
                            old(self).storage@,
                            i as int,
                            kind,
                            self.storage@[i as int].1,
                        );
                    }
                    Ok(index)
                } else {
                    proof {
                        assert(self.storage@ =~= old(self).storage@);
                    }
                    Err(EcsError::OutOfBounds)
                }
            },
            None => Err(EcsError::UnregisteredKind),
        }
    }

    /// Borrows the value the kind's column holds at the handle's slot, for
    /// updating in place. Fails with `StaleHandle` when the handle does not
    /// name the live occupant of its slot and with `UnregisteredKind` when
    /// the kind is absent; a slot in range but holding no value is reported
    /// as `None`, as is a slot beyond the column.
    pub fn fetch(&mut self, id: EntityIndex, kind: u64) -> (r: Result<Option<&mut C>, EcsError>)
        requires
            old(self).wf(),
        ensures
            !can_deallocate(old(self).entity_list@, id) ==> (r matches Err(e) && {
                &&& e == EcsError::StaleHandle
                &&& *final(self) == *old(self)
            }),
            can_deallocate(old(self).entity_list@, id) && !old(self).spec_has(kind) ==> (
            r matches Err(e) && {
                &&& e == EcsError::UnregisteredKind
                &&& *final(self) == *old(self)
            }),
            can_deallocate(old(self).entity_list@, id) && old(self).spec_has(kind) && !(id.0
                < old(self).column_of(kind).len() && old(self).column_of(kind)[id.0 as int]
                is Some) ==> (r matches Ok(opt) && {
                &&& opt is None
                &&& *final(self) == *old(self)
            }),
            can_deallocate(old(self).entity_list@, id) && old(self).spec_has(kind) && id.0 < old(
                self,
            ).column_of(kind).len() && old(self).column_of(kind)[id.0 as int] is Some ==> (
            r matches Ok(opt) && opt matches Some(v) && {
                let idx = index_of_kind(old(self).storage@, kind);
                &&& *v == old(self).column_of(kind)[id.0 as int]->0
                &&& final(self).wf()
                &&& final(self).entity_list@ == old(self).entity_list@
                &&& final(self).free_list@ == old(self).free_list@
                &&& final(self).size == old(self).size
                &&& final(self).spec_has(kind)
                &&& final(self).storage@.len() == old(self).storage@.len()
                &&& forall|p: int|
                    0 <= p < old(self).storage@.len() && p != idx
                        ==> #[trigger] final(self).storage@[p] == old(self).storage@[p]
                &&& final(self).storage@[idx].0 == kind
                &&& final(self).storage@[idx].1@ == old(self).column_of(kind).update(
                    id.0 as int,
                    Some(*final(v)),
                )
            }),
    {
        if !(id.0 < self.entity_list.len() && self.entity_list[id.0].generation == id.1
            && self.entity_list[id.0].is_live) {
            return Err(EcsError::StaleHandle);
        }
        match find_kind(&self.storage, kind) {
            Some(i) => {
                if id.0 < self.storage[i].1.len() {
                    let present = match &self.storage[i].1[id.0] {
                        Some(_) => true,
                        None => false,
                    };
                    if present {
                        let e = &mut self.storage[i];
                        let slot = &mut e.1[id.0];
                        match slot {
                            Some(v) => Ok(Some(v)),
                            None => {
                                assert(false);
                                Ok(None)
                            },
                        }
                    } else {
                        Ok(None)
                    }
                } else {
                    Ok(None)
                }
            },
            None => Err(EcsError::UnregisteredKind),
        }
    }

    /// Deallocates the handle's entity: marks its slot dead, parks the slot
    /// index on the free list, and clears the slot in every registered
    /// column in registration order. Fails with `StaleHandle` when the
    /// handle does not name the live occupant of its slot, leaving
    /// everything unchanged. The per-column clear loop is not transactional:
    /// if one column is too short, the operation fails with `OutOfBounds`
    /// after the slot is already dead, with the columns registered before it
    /// cleared and the rest untouched.
    pub fn deallocate_entity(&mut self, id: EntityIndex) -> (r: Result<(), EcsError>)
        requires
            old(self).wf(),
        ensures
            final(self).wf(),
            !can_deallocate(old(self).entity_list@, id) ==> {
                &&& r == Err::<(), EcsError>(EcsError::StaleHandle)
                &&& *final(self) == *old(self)
            },
            can_deallocate(old(self).entity_list@, id) ==> ({
                let (slots, free) = spec_deallocate(
                    old(self).entity_list@,
                    old(self).free_list@,
                    id,
                );
                &&& final(self).entity_list@ == slots
                &&& final(self).free_list@ == free
                &&& final(self).size == old(self).size - 1
                &&& final(self).storage@.len() == old(self).storage@.len()
                &&& forall|p: int|
                    0 <= p < old(self).storage@.len() ==> (#[trigger] final(self).storage@[p]).0
                        == old(self).storage@[p].0
                &&& (r is Ok <==> (forall|p: int|
                    0 <= p < old(self).storage@.len() ==> (#[trigger] old(self).col_at(p)).len()
                        > id.0))
                &&& (r is Ok ==> forall|p: int|
                    0 <= p < old(self).storage@.len() ==> #[trigger] final(self).col_at(p) == old(
                        self,
                    ).col_at(p).update(id.0 as int, None::<C>))
                &&& (r is Err ==> r == Err::<(), EcsError>(EcsError::OutOfBounds) && exists|f: int|
                    {
                        &&& 0 <= f < old(self).storage@.len()
                        &&& old(self).col_at(f).len() <= id.0
                        &&& forall|p: int|
                            0 <= p < f ==> (#[trigger] old(self).col_at(p)).len() > id.0
                                && final(self).col_at(p) == old(self).col_at(p).update(
                                id.0 as int,
                                None::<C>,
                            )
                        &&& forall|p: int|
                            f <= p < old(self).storage@.len() ==> #[trigger] final(self).storage@[p]
                                == old(self).storage@[p]
                    })
                &&& (forall|k: u64|
                    #[trigger] has_kind(final(self).storage@, k) <==> has_kind(
                        old(self).storage@,
                        k,
                    ))
                &&& (r is Ok <==> (forall|k: u64|
                    #[trigger] has_kind(old(self).storage@, k) ==> old(self).column_of(k).len()
                        > id.0))
                &&& (r is Ok ==> forall|k: u64|
                    #[trigger] has_kind(old(self).storage@, k) ==> final(self).column_of(k) == old(
                        self,
                    ).column_of(k).update(id.0 as int, None::<C>))
            }),
    {
        if !(id.0 < self.entity_list.len() && self.entity_list[id.0].generation == id.1
            && self.entity_list[id.0].is_live) {
            return Err(EcsError::StaleHandle);
        }
        proof {
            lemma_free_list_shorter(old(self).entity_list@, old(self).free_list@, id.0 as int);
            lemma_free_list_ok_after_deallocate(
                old(self).entity_list@,
                old(self).free_list@,
                id,
            );
        }
        let g = self.entity_list[id.0].generation;
        let e = &mut self.entity_list[id.0];
        *e = Entry { is_live: false, generation: g };
        self.free_list.push(id.0);
        self.size = self.size - 1;
        let mut p: usize = 0;
        while p < self.storage.len()
            invariant
                old(self).wf(),
                can_deallocate(old(self).entity_list@, id),
                self.storage@.len() == old(self).storage@.len(),
                p <= self.storage@.len(),
                self.entity_list@ == spec_deallocate(
                    old(self).entity_list@,
                    old(self).free_list@,
                    id,
                ).0,
                self.free_list@ == spec_deallocate(
                    old(self).entity_list@,
                    old(self).free_list@,
                    id,
                ).1,
                self.size == old(self).size - 1,
                old(self).size >= 1,
                free_list_ok(self.entity_list@, self.free_list@),
                forall|q: int|
                    0 <= q < p ==> (#[trigger] old(self).col_at(q)).len() > id.0,
                forall|q: int|
                    0 <= q < p ==> (#[trigger] self.storage@[q]).0 == old(self).storage@[q].0
                        && self.col_at(q) == old(self).col_at(q).update(id.0 as int, None::<C>),
                forall|q: int|
                    p <= q < self.storage@.len() ==> #[trigger] self.storage@[q] == old(
                        self,
                    ).storage@[q],
            decreases self.storage@.len() - p,
        {
            let ghost pre = self.storage@;
            let e = &mut self.storage[p];
            if id.0 < e.1.len() {
                let slot = &mut e.1[id.0];
                *slot = None;
            } else {
                proof {
                    assert(self.storage@ =~= pre);
                    assert(old(self).col_at(p as int).len() <= id.0);
                    assert(forall|q: int|
                        p as int <= q < old(self).storage@.len() ==> #[trigger] self.storage@[q]
                            == old(self).storage@[q]);
                    self.lemma_clear_kindwise(*old(self), id, p as int);
                    lemma_kind_at_position(old(self).storage@, p as int);
                    let k = old(self).storage@[p as int].0;
                    assert(has_kind(old(self).storage@, k));
                    assert(old(self).column_of(k) == old(self).col_at(p as int));
                    assert(old(self).column_of(k).len() <= id.0);
                }
                return Err(EcsError::OutOfBounds);
            }
            p = p + 1;
        }
        proof {
            self.lemma_clear_kindwise(*old(self), id, self.storage@.len() as int);
        }
        Ok(())
    }

    /// Bridges the positional description of a clear pass (positions below
    /// `upto` cleared, the rest untouched) to the kind-indexed one.
    proof fn lemma_clear_kindwise(&self, prev: Self, id: EntityIndex, upto: int)
        requires
            distinct_kinds(prev.storage@),
            0 <= upto <= prev.storage@.len(),
            self.storage@.len() == prev.storage@.len(),
            forall|q: int|
                0 <= q < upto ==> (#[trigger] self.storage@[q]).0 == prev.storage@[q].0
                    && self.col_at(q) == prev.col_at(q).update(id.0 as int, None::<C>),
            forall|q: int|
                upto <= q < self.storage@.len() ==> #[trigger] self.storage@[q]
                    == prev.storage@[q],
        ensures
            distinct_kinds(self.storage@),
            forall|k: u64| #[trigger] has_kind(self.storage@, k) <==> has_kind(prev.storage@, k),
            forall|k: u64|
                #[trigger] has_kind(prev.storage@, k) ==> {
                    let i = index_of_kind(prev.storage@, k);
                    &&& 0 <= i < prev.storage@.len()
                    &&& prev.column_of(k) == prev.col_at(i)
                    &&& (i < upto ==> self.column_of(k) == prev.column_of(k).update(
                        id.0 as int,
                        None::<C>,
                    ))
                    &&& (i >= upto ==> self.column_of(k) == prev.column_of(k))
                },
    {
        assert forall|q: int|
            0 <= q < self.storage@.len() implies (#[trigger] self.storage@[q]).0
            == prev.storage@[q].0 by {}
        assert forall|i: int, j: int|
            0 <= i < j < self.storage@.len() implies (#[trigger] self.storage@[i]).0 != (
        #[trigger] self.storage@[j]).0 by {
            assert(prev.storage@[i].0 != prev.storage@[j].0);
        }
        assert forall|k: u64|
            #[trigger] has_kind(self.storage@, k) <==> has_kind(prev.storage@, k) by {
            if has_kind(self.storage@, k) {
                let i = index_of_kind(self.storage@, k);
                assert(self.storage@[i].0 == k);
                lemma_kind_at_position(prev.storage@, i);
            }
            if has_kind(prev.storage@, k) {
                let i = index_of_kind(prev.storage@, k);
                assert(prev.storage@[i].0 == k);
                lemma_kind_at_position(self.storage@, i);
            }
        }
        assert forall|k: u64| #[trigger] has_kind(prev.storage@, k) implies {
            let i = index_of_kind(prev.storage@, k);
            &&& 0 <= i < prev.storage@.len()
            &&& prev.column_of(k) == prev.col_at(i)
            &&& (i < upto ==> self.column_of(k) == prev.column_of(k).update(
                id.0 as int,
                None::<C>,
            ))
            &&& (i >= upto ==> self.column_of(k) == prev.column_of(k))
        } by {
            let i = index_of_kind(prev.storage@, k);
            assert(prev.storage@[i].0 == k);
            lemma_kind_at_position(prev.storage@, i);
            lemma_kind_at_position(self.storage@, i);
            assert(self.storage@[i].0 == k);
        }
    }
}

} // verus!
