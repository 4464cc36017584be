//! The densely packed, tombstoned column: one growable sequence of entries
//! per data kind, plus its iterators.

use crate::component::ComponentEntry;
use crate::entity::EntityIndex;
use crate::iter::start_of;
use crate::iter::ComponentIteratorJoin;
use crate::iter::Iter;
use crate::iter::IteratorWrapper;
use crate::storage::spec_insert;
use crate::storage::Storage;
use crate::EcsError;
use vstd::prelude::*;

verus! {

/// One column: every value of one kind, indexed by slot index, with
/// tombstones where a slot holds no value.
#[derive(Clone, Debug)]
pub struct DenseComponentStorage<T: Clone>(pub Vec<ComponentEntry<T>>);

impl<T: Clone> DenseComponentStorage<T> {
    /// Creates an empty column.
    pub fn new() -> (r: DenseComponentStorage<T>)
        ensures
            r.entries() == Seq::<Option<T>>::empty(),
    {
        let r = DenseComponentStorage(Vec::new());
        proof {
            assert(r.entries() =~= Seq::<Option<T>>::empty());
        }
        r
    }

    /// Returns an immutable iterator over the column's present entries.
    pub fn get_iter<'it>(&'it self) -> (r: DenseComponentIterator<'it, T>)
        ensures
            deref_entries(r.entries()) == self.entries(),
            r.entries().len() == self.entries().len(),
            forall|j: int|
                0 <= j < self.entries().len() ==> ((#[trigger] r.entries()[j]) is Some
                    <==> self.entries()[j] is Some),
            forall|j: int|
                0 <= j < self.entries().len() && (#[trigger] r.entries()[j]) is Some ==> *(
                r.entries()[j]->0) == self.entries()[j]->0,
            r.pos() == 0,
    {
        let r = DenseComponentIterator { st: &self.0, current_index: 0 };
        proof {
            assert(deref_entries(r.entries()) =~= self.entries());
            assert forall|j: int|
                0 <= j < self.entries().len() implies ((#[trigger] r.entries()[j]) is Some
                <==> self.entries()[j] is Some) && (r.entries()[j] is Some ==> *(r.entries()[j]->0)
                == self.entries()[j]->0) by {
                assert(deref_entries(r.entries())[j] == self.entries()[j]);
            }
        }
        r
    }

    /// Returns a cursor for mutable iteration over the column's present
    /// entries.
    pub fn get_mut_iter(&mut self) -> (r: DenseComponentIteratorMut)
        ensures
            *final(self) == *old(self),
            r.pos() == 0,
    {
        DenseComponentIteratorMut { current_index: 0 }
    }
}

impl<T: Clone> Default for DenseComponentStorage<T> {
    /// An empty column.
    fn default() -> (r: DenseComponentStorage<T>)
        ensures
            r.entries() == Seq::<Option<T>>::empty(),
    {
        DenseComponentStorage::new()
    }
}

impl<T: Clone> Storage for DenseComponentStorage<T> {
    type Component = T;

    open spec fn entries(&self) -> Seq<Option<T>> {
        Seq::new(self.0@.len(), |i: int| self.0@[i].value())
    }

    fn new() -> (r: DenseComponentStorage<T>) {
        DenseComponentStorage::new()
    }

    fn get(&self, id: EntityIndex) -> (r: &ComponentEntry<T>) {
        if id.0 < self.0.len() {
            &self.0[id.0]
        } else {
            &ComponentEntry::Empty
        }
    }

    fn remove(&mut self, index: EntityIndex) -> (r: Result<EntityIndex, EcsError>) {
        if index.0 < self.0.len() {
            let e = &mut self.0[index.0];
            *e = ComponentEntry::Empty;
            proof {
                assert(self.entries() =~= old(self).entries().update(
                    index.0 as int,
                    None::<T>,
                ));
            }
            Ok(index)
        } else {
            Err(EcsError::OutOfBounds)
        }
    }

    fn insert(&mut self, index: EntityIndex, component: T) -> (r: Result<EntityIndex, EcsError>) {
        if index.0 < self.0.len() {
            let e = &mut self.0[index.0];
            *e = ComponentEntry::Entry(Box::new(component));
            proof {
                assert(self.entries() =~= spec_insert(
                    old(self).entries(),
                    index.0 as int,
                    component,
                ));
            }
        } else {
            while self.0.len() < index.0
                invariant
                    old(self).0@.len() <= self.0@.len() <= index.0,
                    forall|j: int| 0 <= j < old(self).0@.len() ==> self.0@[j] == old(self).0@[j],
                    forall|j: int|
                        old(self).0@.len() <= j < self.0@.len() ==> (#[trigger] self.0@[j]).value()
                            is None,
                decreases index.0 - self.0.len(),
            {
                self.0.push(ComponentEntry::Empty);
            }
            self.0.push(ComponentEntry::Entry(Box::new(component)));
            proof {
                assert(self.entries() =~= spec_insert(
                    old(self).entries(),
                    index.0 as int,
                    component,
                ));
            }
        }
        Ok(index)
    }

    fn len(&self) -> (r: usize) {
        self.0.len()
    }
}

/// The value behind each yielded reference: lifts a sparse sequence of
/// borrowed entries back to the column's own view.
pub open spec fn deref_entries<'a, T>(s: Seq<Option<&'a T>>) -> Seq<Option<T>> {
    Seq::new(
        s.len(),
        |i: int|
            match s[i] {
                Some(r) => Some(*r),
                None => None,
            },
    )
}

/// Immutable iterator over one column's present entries.
pub struct DenseComponentIterator<'cs, T: Clone> {
    st: &'cs Vec<ComponentEntry<T>>,
    current_index: usize,
}

impl<'cs, T: Clone> DenseComponentIterator<'cs, T> {
    /// Joins this iterator with another over their common indices.
    pub fn join<O: Iter>(self, other: O) -> (r: ComponentIteratorJoin<Self, O>)
        ensures
            r.0 == self,
            r.1 == other,
    {
        ComponentIteratorJoin(self, other)
    }

    /// Wraps this iterator for plain, hint-free consumption.
    pub fn into_iterator_wrapper(self) -> (r: IteratorWrapper<Self>)
        ensures
            r.0 == self,
    {
        IteratorWrapper(self)
    }
}

impl<'cs, T: Clone> Iter for DenseComponentIterator<'cs, T> {
    type Item = &'cs T;

    closed spec fn entries(&self) -> Seq<Option<&'cs T>> {
        Seq::new(
            self.st@.len(),
            |i: int|
                match self.st@[i] {
                    ComponentEntry::Empty => None,
                    ComponentEntry::Entry(ref b) => Some(&**b),
                },
        )
    }

    closed spec fn pos(&self) -> int {
        self.current_index as int
    }

    fn next_element(&mut self, until: Option<usize>) -> (r: Option<(&'cs T, usize)>) {
        let lim = match until {
            Some(u) => u,
            None => 0,
        };
        if lim > self.current_index {
            self.current_index = lim;
        }
        while self.current_index < self.st.len()
            invariant
                self.st == old(self).st,
                self.entries() == old(self).entries(),
                start_of(old(self).pos(), until) <= self.current_index,
                forall|j: int|
                    start_of(old(self).pos(), until) <= j < self.current_index && j
                        < old(self).entries().len() ==> (#[trigger] old(self).entries()[j]) is None,
            decreases self.st@.len() - self.current_index,
        {
            let c = self.current_index;
            self.current_index = c + 1;
            match &self.st[c] {
                ComponentEntry::Entry(b) => {
                    return Some((&**b, c));
                },
                ComponentEntry::Empty => {},
            }
        }
        None
    }
}

/// Cursor for mutable iteration over one column: the column itself is handed
/// to each step, so the borrow lasts no longer than the step.
pub struct DenseComponentIteratorMut {
    current_index: usize,
}

impl DenseComponentIteratorMut {
    /// The cursor: every index below it is behind the iterator.
    pub closed spec fn pos(&self) -> int {
        self.current_index as int
    }

    /// Creates a cursor at the start of a column.
    pub fn new() -> (r: DenseComponentIteratorMut)
        ensures
            r.pos() == 0,
    {
        DenseComponentIteratorMut { current_index: 0 }
    }

    /// The index the cursor stands at.
    pub fn index(&self) -> (r: usize)
        ensures
            r == self.pos(),
    {
        self.current_index
    }

    /// Retrieves the first present entry of `st` at or after the greater of
    /// the cursor and the hint, borrowing it mutably so the caller can
    /// update the value in place.
    pub fn next_element_mut<'a, T: Clone>(
        &mut self,
        st: &'a mut DenseComponentStorage<T>,
        until: Option<usize>,
    ) -> (r: Option<(&'a mut Box<T>, usize)>)
        ensures
            match r {
                Some(p) => {
                    let s = old(st).entries();
                    let start = start_of(old(self).pos(), until);
                    &&& start <= p.1 < s.len()
                    &&& s[p.1 as int] == Some(**p.0)
                    &&& forall|j: int| start <= j < p.1 ==> (#[trigger] s[j]) is None
                    &&& final(self).pos() == p.1 + 1
                    &&& final(st).entries().len() == s.len()
                    &&& final(st).entries()[p.1 as int] == Some(**final(p.0))
                    &&& forall|j: int|
                        0 <= j < s.len() && j != p.1 ==> final(st).entries()[j] == s[j]
                },
                None => {
                    let s = old(st).entries();
                    let start = start_of(old(self).pos(), until);
                    &&& forall|j: int| start <= j < s.len() ==> (#[trigger] s[j]) is None
                    &&& final(self).pos() >= s.len()
                    &&& *final(st) == *old(st)
                },
            },
    {
        let lim = match until {
            Some(u) => u,
            None => 0,
        };
        if lim > self.current_index {
            self.current_index = lim;
        }
        while self.current_index < st.0.len()
            invariant
                *st == *old(st),
                start_of(old(self).pos(), until) <= self.current_index,
                forall|j: int|
                    start_of(old(self).pos(), until) <= j < self.current_index && j
                        < old(st).entries().len() ==> (#[trigger] old(st).entries()[j]) is None,
            decreases st.0@.len() - self.current_index,
        {
            let c = self.current_index;
            let present = match &st.0[c] {
                ComponentEntry::Entry(_) => true,
                ComponentEntry::Empty => false,
            };
            self.current_index = c + 1;
            if present {
                let e = &mut st.0[c];
                match e {
                    ComponentEntry::Entry(b) => {
                        return Some((b, c));
                    },
                    ComponentEntry::Empty => {
                        assert(false);
                        return None;
                    },
                }
            }
        }
        None
    }
}

} // verus!
