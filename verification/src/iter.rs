//! Hint-driven iteration and the merge-join over sparse columns.
//!
//! An iterator walks a sparse sequence of entries, yielding each present
//! entry together with its index. `next_element` takes a hint: the least
//! index the caller is still interested in, which lets a join skip an
//! iterator directly past long empty runs instead of stepping one by one.

use vstd::prelude::*;

verus! {

/// Where a `next_element` call starts scanning: at the iterator's own
/// cursor, or at the hint, whichever is further along.
pub open spec fn start_of(pos: int, until: Option<usize>) -> int {
    let lo = match until {
        Some(u) => u as int,
        None => 0,
    };
    if pos >= lo {
        pos
    } else {
        lo
    }
}

/// The sparse sequence a join walks: an index holds a pair exactly when both
/// operands hold an entry there.
pub open spec fn join_entries<A, B>(a: Seq<Option<A>>, b: Seq<Option<B>>) -> Seq<Option<(A, B)>> {
    Seq::new(
        if a.len() <= b.len() {
            a.len()
        } else {
            b.len()
        },
        |i: int|
            if a[i] is Some && b[i] is Some {
                Some((a[i]->0, b[i]->0))
            } else {
                None
            },
    )
}

/// The minimal iterator contract: a sparse sequence of entries, a cursor,
/// and a hint-driven step that returns the first present entry at or after
/// the greater of cursor and hint.
pub trait Iter: Sized {
    type Item;

    /// The sparse sequence this iterator walks; `None` marks an empty index.
    spec fn entries(&self) -> Seq<Option<Self::Item>>;

    /// The cursor: every index below it is behind the iterator.
    spec fn pos(&self) -> int;

    /// Retrieves the first present entry at or after the greater of the
    /// cursor and the hint `until`, skipping empty indices, and leaves the
    /// cursor just past it; `None` once no present entry remains.
    fn next_element(&mut self, until: Option<usize>) -> (r: Option<(Self::Item, usize)>)
        ensures
            final(self).entries() == old(self).entries(),
            match r {
                Some(p) => {
                    let s = old(self).entries();
                    let start = start_of(old(self).pos(), until);
                    &&& start <= p.1 < s.len()
                    &&& s[p.1 as int] == Some(p.0)
                    &&& forall|j: int| start <= j < p.1 ==> (#[trigger] s[j]) is None
                    &&& final(self).pos() == p.1 + 1
                },
                None => {
                    let s = old(self).entries();
                    let start = start_of(old(self).pos(), until);
                    &&& forall|j: int| start <= j < s.len() ==> (#[trigger] s[j]) is None
                    &&& final(self).pos() >= s.len()
                },
            },
    ;

}

/// Two joined iterators, stepped in lockstep over their common indices.
pub struct ComponentIteratorJoin<H, T>(pub H, pub T);

impl<H: Iter, T: Iter> Iter for ComponentIteratorJoin<H, T> {
    type Item = (H::Item, T::Item);

    open spec fn entries(&self) -> Seq<Option<(H::Item, T::Item)>> {
        join_entries(self.0.entries(), self.1.entries())
    }

    open spec fn pos(&self) -> int {
        if self.0.pos() >= self.1.pos() {
            self.0.pos()
        } else {
            self.1.pos()
        }
    }

    /// Leapfrog: whichever side trails is re-queried with the other side's
    /// index as the hint, until both sides agree on an index or one runs out.
    fn next_element(&mut self, until: Option<usize>) -> (r: Option<((H::Item, T::Item), usize)>) {
        let ghost a = self.0.entries();
        let ghost b = self.1.entries();
        let ghost s0 = start_of(self.0.pos(), until);
        let ghost s1 = start_of(self.1.pos(), until);
        let ghost sj = start_of(self.pos(), until);
        let r0 = self.0.next_element(until);
        let r1 = self.1.next_element(until);
        match (r0, r1) {
            (Some(p0), Some(p1)) => {
                let (mut i1, mut ind1) = p0;
                let (mut i2, mut ind2) = p1;
                proof {
                    assert forall|j: int|
                        sj <= j < join_entries(a, b).len() && j < (if ind1 >= ind2 {
                            ind1 as int
                        } else {
                            ind2 as int
                        }) implies !((#[trigger] join_entries(a, b)[j]) is Some) by {
                        if j < ind1 {
                            assert(a[j] is None);
                        } else {
                            assert(b[j] is None);
                        }
                    }
                }
                loop
                    invariant
                        a == old(self).0.entries(),
                        b == old(self).1.entries(),
                        s0 == start_of(old(self).0.pos(), until),
                        s1 == start_of(old(self).1.pos(), until),
                        sj == start_of(old(self).pos(), until),
                        sj == if s0 >= s1 {
                            s0
                        } else {
                            s1
                        },
                        self.0.entries() == a,
                        self.1.entries() == b,
                        ind1 < a.len(),
                        a[ind1 as int] == Some(i1),
                        ind2 < b.len(),
                        b[ind2 as int] == Some(i2),
                        self.0.pos() == ind1 + 1,
                        self.1.pos() == ind2 + 1,
                        s0 <= ind1,
                        s1 <= ind2,
                        forall|j: int|
                            sj <= j < join_entries(a, b).len() && j < (if ind1 >= ind2 {
                                ind1 as int
                            } else {
                                ind2 as int
                            }) ==> !((#[trigger] join_entries(a, b)[j]) is Some),
                    decreases (a.len() + b.len()) - (ind1 + ind2),
                {
                    if ind1 < ind2 {
                        if let Some(res) = self.0.next_element(Some(ind2)) {
                            i1 = res.0;
                            ind1 = res.1;
                            proof {
                                assert forall|j: int|
                                    sj <= j < join_entries(a, b).len() && j < (if ind1 >= ind2 {
                                        ind1 as int
                                    } else {
                                        ind2 as int
                                    }) implies !((#[trigger] join_entries(a, b)[j]) is Some) by {
                                    if j >= ind2 {
                                        assert(a[j] is None);
                                    }
                                }
                            }
                        } else {
                            proof {
                                self.lemma_exhausted_left(a, b, sj, ind2 as int);
                            }
                            return None;
                        }
                    } else if ind1 > ind2 {
                        if let Some(res) = self.1.next_element(Some(ind1)) {
                            i2 = res.0;
                            ind2 = res.1;
                            proof {
                                assert forall|j: int|
                                    sj <= j < join_entries(a, b).len() && j < (if ind1 >= ind2 {
                                        ind1 as int
                                    } else {
                                        ind2 as int
                                    }) implies !((#[trigger] join_entries(a, b)[j]) is Some) by {
                                    if j >= ind1 {
                                        assert(b[j] is None);
                                    }
                                }
                            }
                        } else {
                            proof {
                                self.lemma_exhausted_right(a, b, sj, ind1 as int);
                            }
                            return None;
                        }
                    } else {
                        assert(join_entries(a, b)[ind1 as int] == Some((i1, i2)));
                        return Some(((i1, i2), ind1));
                    }
                }
            },
            _ => {
                proof {
                    let s = join_entries(a, b);
                    assert forall|j: int| sj <= j < s.len() implies !((#[trigger] s[j]) is Some) by {
                        assert(s[j] is Some ==> a[j] is Some && b[j] is Some);
                    }
                }
                None
            },
        }
    }
}

impl<H: Iter, T: Iter> ComponentIteratorJoin<H, T> {
    /// Joins this join with yet another iterator; pairwise joins nest to
    /// express a query over any number of kinds.
    pub fn join<O: Iter>(self, other: O) -> (r: ComponentIteratorJoin<Self, O>)
        ensures
            r.0 == self,
            r.1 == other,
    {
        ComponentIteratorJoin(self, other)
    }

    /// Wraps this join for plain, hint-free consumption.
    pub fn into_iterator_wrapper(self) -> (r: IteratorWrapper<Self>)
        ensures
            r.0 == self,
    {
        IteratorWrapper(self)
    }

    /// After the left side reports no entry at or after `hi`, no common
    /// index at or after `sj` remains.
    proof fn lemma_exhausted_left(&self, a: Seq<Option<H::Item>>, b: Seq<Option<T::Item>>, sj: int, hi: int)
        requires
            0 <= sj,
            self.0.entries() == a,
            self.1.entries() == b,
            self.0.pos() >= a.len(),
            forall|j: int| hi <= j < a.len() ==> (#[trigger] a[j]) is None,
            forall|j: int|
                sj <= j < join_entries(a, b).len() && j < hi ==> !((#[trigger] join_entries(a, b)[j]) is Some),
        ensures
            forall|j: int|
                sj <= j < join_entries(a, b).len() ==> !((#[trigger] join_entries(a, b)[j]) is Some),
            self.pos() >= join_entries(a, b).len(),
    {
        let s = join_entries(a, b);
        assert forall|j: int| sj <= j < s.len() implies !((#[trigger] s[j]) is Some) by {
            if j >= hi {
                assert(a[j] is None);
            }
        }
    }

    /// Mirror of `lemma_exhausted_left` for the right side.
    proof fn lemma_exhausted_right(&self, a: Seq<Option<H::Item>>, b: Seq<Option<T::Item>>, sj: int, hi: int)
        requires
            0 <= sj,
            self.0.entries() == a,
            self.1.entries() == b,
            self.1.pos() >= b.len(),
            forall|j: int| hi <= j < b.len() ==> (#[trigger] b[j]) is None,
            forall|j: int|
                sj <= j < join_entries(a, b).len() && j < hi ==> !((#[trigger] join_entries(a, b)[j]) is Some),
        ensures
            forall|j: int|
                sj <= j < join_entries(a, b).len() ==> !((#[trigger] join_entries(a, b)[j]) is Some),
            self.pos() >= join_entries(a, b).len(),
    {
        let s = join_entries(a, b);
        assert forall|j: int| sj <= j < s.len() implies !((#[trigger] s[j]) is Some) by {
            if j >= hi {
                assert(b[j] is None);
            }
        }
    }
}

/// Convenience wrapper exposing plain "next item" stepping without hints.
pub struct IteratorWrapper<H>(pub H);

impl<H: Iter> IteratorWrapper<H> {
    /// Returns the next present item of the contained iterator, without its
    /// index.
    pub fn next(&mut self) -> (r: Option<H::Item>)
        ensures
            final(self).0.entries() == old(self).0.entries(),
            match r {
                Some(item) => {
                    let s = old(self).0.entries();
                    let start = start_of(old(self).0.pos(), None::<usize>);
                    exists|i: int|
                        {
                            &&& start <= i < s.len()
                            &&& #[trigger] s[i] == Some(item)
                            &&& forall|j: int| start <= j < i ==> (#[trigger] s[j]) is None
                            &&& final(self).0.pos() == i + 1
                        }
                },
                None => {
                    let s = old(self).0.entries();
                    let start = start_of(old(self).0.pos(), None::<usize>);
                    &&& forall|j: int| start <= j < s.len() ==> (#[trigger] s[j]) is None
                    &&& final(self).0.pos() >= s.len()
                },
            },
    {
        if let Some(val) = self.0.next_element(None) {
            Some(val.0)
        } else {
            None
        }
    }
}

/// Law: the join of two sparse sequences holds exactly the indices present
/// in both, each paired with both values, and swapping the operands yields
/// the same index set with the values of every pair swapped.
pub proof fn lemma_join_entries_correct<A, B>(a: Seq<Option<A>>, b: Seq<Option<B>>)
    ensures
        join_entries(a, b).len() == if a.len() <= b.len() {
            a.len()
        } else {
            b.len()
        },
        forall|i: int|
            0 <= i < join_entries(a, b).len() ==> ((#[trigger] join_entries(a, b)[i]) is Some <==> (
            a[i] is Some && b[i] is Some)),
        forall|i: int|
            0 <= i < join_entries(a, b).len() && a[i] is Some && b[i] is Some ==> (
            #[trigger] join_entries(a, b)[i]) == Some((a[i]->0, b[i]->0)),
        join_entries(b, a).len() == join_entries(a, b).len(),
        forall|i: int|
            0 <= i < join_entries(a, b).len() ==> ((#[trigger] join_entries(a, b)[i]) is Some <==> join_entries(
                b,
                a,
            )[i] is Some),
        forall|i: int|
            0 <= i < join_entries(a, b).len() && (#[trigger] join_entries(a, b)[i]) is Some
                ==> join_entries(b, a)[i]->0 == ((join_entries(a, b)[i]->0).1, (join_entries(
                a,
                b,
            )[i]->0).0),
{
}

} // verus!
