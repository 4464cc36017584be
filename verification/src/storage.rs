//! The column contract: what any per-kind storage must do, stated over the
//! sparse sequence of values it holds.

use crate::component::ComponentEntry;
use crate::entity::EntityIndex;
use crate::EcsError;
use vstd::prelude::*;

verus! {

/// What inserting at slot `k` does to a column: overwrite in place when the
/// slot is in range, otherwise pad with tombstones until `k` is reachable
/// and place the value there. Existing entries are never reordered.
pub open spec fn spec_insert<T>(s: Seq<Option<T>>, k: int, v: T) -> Seq<Option<T>> {
    if k < s.len() {
        s.update(k, Some(v))
    } else {
        Seq::new(
            (k + 1) as nat,
            |i: int|
                if i < s.len() {
                    s[i]
                } else if i == k {
                    Some(v)
                } else {
                    None
                },
        )
    }
}

/// Law: inserting at slot `k` leaves the column at least `k + 1` long, puts
/// the value at `k`, keeps every written entry, and leaves every index below
/// `k` that was never written empty.
pub proof fn lemma_column_growth<T>(s: Seq<Option<T>>, k: int, v: T)
    requires
        0 <= k,
    ensures
        spec_insert(s, k, v).len() >= k + 1,
        spec_insert(s, k, v).len() == if k < s.len() {
            s.len() as int
        } else {
            k + 1
        },
        spec_insert(s, k, v)[k] == Some(v),
        forall|j: int| 0 <= j < s.len() && j != k ==> spec_insert(s, k, v)[j] == s[j],
        forall|j: int| s.len() <= j < k ==> (#[trigger] spec_insert(s, k, v)[j]) is None,
{
}

/// Contract for a column: a homogeneous, independently growable sparse
/// sequence of values of one kind, indexed by slot index. A column performs
/// no generation or liveness checks; those belong to the facade.
pub trait Storage: Sized {
    type Component;

    /// The sparse sequence of values this column holds; `None` is a
    /// tombstone.
    spec fn entries(&self) -> Seq<Option<Self::Component>>;

    /// Creates an empty column.
    fn new() -> (r: Self)
        ensures
            r.entries() == Seq::<Option<Self::Component>>::empty(),
    ;

    /// Returns the entry at the handle's slot, or an empty entry when the
    /// slot lies beyond the column.
    fn get(&self, id: EntityIndex) -> (r: &ComponentEntry<Self::Component>)
        ensures
            id.0 < self.entries().len() ==> r.value() == self.entries()[id.0 as int],
            id.0 >= self.entries().len() ==> r.value() is None,
    ;

    /// Sets the entry at the handle's slot to a tombstone; fails with
    /// `OutOfBounds` exactly when the slot lies beyond the column.
    fn remove(&mut self, index: EntityIndex) -> (r: Result<EntityIndex, EcsError>)
        ensures
            index.0 < old(self).entries().len() ==> {
                &&& r == Ok::<EntityIndex, EcsError>(index)
                &&& final(self).entries() == old(self).entries().update(
                    index.0 as int,
                    None::<Self::Component>,
                )
            },
            index.0 >= old(self).entries().len() ==> {
                &&& r == Err::<EntityIndex, EcsError>(EcsError::OutOfBounds)
                &&& *final(self) == *old(self)
            },
    ;

    /// Places the value at the handle's slot, padding with tombstones when
    /// the slot lies beyond the column; never fails and never reorders
    /// existing entries.
    fn insert(&mut self, index: EntityIndex, component: Self::Component) -> (r: Result<
        EntityIndex,
        EcsError,
    >)
        ensures
            r == Ok::<EntityIndex, EcsError>(index),
            final(self).entries() == spec_insert(old(self).entries(), index.0 as int, component),
    ;

    /// The column's length: how many slots it spans, not how many values it
    /// holds.
    fn len(&self) -> (r: usize)
        ensures
            r == self.entries().len(),
    ;
}

} // verus!
