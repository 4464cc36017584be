//! Generational slot allocator: the identity authority every other part of
//! the engine validates entity handles against.

use crate::iter::start_of;
use crate::iter::ComponentIteratorJoin;
use crate::iter::Iter;
use crate::iter::IteratorWrapper;
use crate::EcsError;
use vstd::prelude::*;

verus! {

/// A logical entity, addressed by the index of its slot.
pub type Entity = usize;

/// Counter distinguishing successive occupants of one slot.
pub type Generation = u64;

/// Handle naming one occupant of one slot: `(slot index, generation)`.
pub type EntityIndex = (Entity, Generation);

/// One slot of the generational allocator.
#[derive(Clone, Copy, PartialEq, Eq, Structural, Debug)]
pub struct Entry {
    pub is_live: bool,
    pub generation: u64,
}

/// The free list is sound for the given slots: every member names a distinct
/// dead slot, and every dead slot is parked on it.
pub open spec fn free_list_ok(slots: Seq<Entry>, free: Seq<usize>) -> bool {
    &&& forall|i: int|
        0 <= i < free.len() ==> (#[trigger] free[i]) < slots.len() && !slots[free[i] as int].is_live
    &&& forall|i: int, j: int| 0 <= i < j < free.len() ==> free[i] != free[j]
    &&& forall|k: int|
        0 <= k < slots.len() && !(#[trigger] slots[k]).is_live ==> exists|i: int|
            0 <= i < free.len() && #[trigger] free[i] == k
}

/// The handle names a slot that exists, is live, and carries the handle's
/// generation; exactly these handles may be deallocated.
pub open spec fn can_deallocate(slots: Seq<Entry>, id: EntityIndex) -> bool {
    &&& (id.0 as int) < slots.len()
    &&& slots[id.0 as int].generation == id.1
    &&& slots[id.0 as int].is_live
}

/// What allocation does: pop the most recently freed slot and bump its
/// generation, or append a brand-new slot at generation zero.
pub open spec fn spec_allocate(slots: Seq<Entry>, free: Seq<usize>) -> (Seq<Entry>, Seq<
    usize,
>, EntityIndex) {
    if free.len() > 0 {
        let x = free.last();
        let g = (slots[x as int].generation + 1) as u64;
        (slots.update(x as int, Entry { is_live: true, generation: g }), free.drop_last(), (x, g))
    } else {
        (
            slots.push(Entry { is_live: true, generation: 0u64 }),
            free,
            (slots.len() as usize, 0u64),
        )
    }
}

/// What deallocation does to a deallocatable handle: mark the slot dead,
/// keep its generation, and park the index on the free list.
pub open spec fn spec_deallocate(slots: Seq<Entry>, free: Seq<usize>, id: EntityIndex) -> (Seq<
    Entry,
>, Seq<usize>) {
    (
        slots.update(
            id.0 as int,
            Entry { is_live: false, generation: slots[id.0 as int].generation },
        ),
        free.push(id.0),
    )
}

/// Allocator handing out unused or new `EntityIndex`es.
pub struct EntityAllocator {
    pub entity_list: Vec<Entry>,
    pub free_list: Vec<usize>,
}

impl EntityAllocator {
    /// The allocator's internal invariant.
    pub open spec fn wf(&self) -> bool {
        free_list_ok(self.entity_list@, self.free_list@)
    }

    /// Creates a new `EntityAllocator` with no slots.
    pub fn new() -> (r: EntityAllocator)
        ensures
            r.wf(),
            r.entity_list@ == Seq::<Entry>::empty(),
            r.free_list@ == Seq::<usize>::empty(),
    {
        EntityAllocator { entity_list: Vec::new(), free_list: Vec::new() }
    }

    /// Allocates an entity and returns its `EntityIndex`: the most recently
    /// freed slot with its generation incremented, or a fresh slot at
    /// generation zero.
    pub fn allocate(&mut self) -> (r: EntityIndex)
        requires
            old(self).wf(),
            old(self).free_list@.len() == 0 ==> old(self).entity_list@.len() < usize::MAX,
            old(self).free_list@.len() > 0 ==> old(self).entity_list@[old(
                self,
            ).free_list@.last() as int].generation < u64::MAX,
        ensures
            final(self).wf(),
            ({
                let (slots, free, idx) = spec_allocate(
                    old(self).entity_list@,
                    old(self).free_list@,
                );
                &&& final(self).entity_list@ == slots
                &&& final(self).free_list@ == free
                &&& r == idx
            }),
            can_deallocate(final(self).entity_list@, r),
    {
        match self.free_list.pop() {
            Some(x) => {
                let g = self.entity_list[x].generation;
                let e = &mut self.entity_list[x];
                *e = Entry { is_live: true, generation: g + 1 };
                proof {
                    lemma_free_list_ok_after_allocate(
                        old(self).entity_list@,
                        old(self).free_list@,
                    );
                }
                (x, g + 1)
            },
            None => {
                self.entity_list.push(Entry { is_live: true, generation: 0 });
                proof {
                    lemma_free_list_ok_after_allocate(
                        old(self).entity_list@,
                        old(self).free_list@,
                    );
                }
                (self.entity_list.len() - 1, 0)
            },
        }
    }

    /// Deallocates the given `EntityIndex`, returning its slot to the pool of
    /// unused indexes. Fails with `StaleHandle` exactly when the handle's
    /// generation does not match its slot, the slot is already dead, or the
    /// slot was never allocated.
    pub fn deallocate(&mut self, id: EntityIndex) -> (r: Result<(), EcsError>)
        requires
            old(self).wf(),
        ensures
            final(self).wf(),
            r is Ok <==> can_deallocate(old(self).entity_list@, id),
            can_deallocate(old(self).entity_list@, id) ==> ({
                let (slots, free) = spec_deallocate(
                    old(self).entity_list@,
                    old(self).free_list@,
                    id,
                );
                &&& final(self).entity_list@ == slots
                &&& final(self).free_list@ == free
            }),
            !can_deallocate(old(self).entity_list@, id) ==> {
                &&& final(self).entity_list@ == old(self).entity_list@
                &&& final(self).free_list@ == old(self).free_list@
                &&& r == Err::<(), EcsError>(EcsError::StaleHandle)
            },
    {
        if id.0 < self.entity_list.len() && self.entity_list[id.0].generation == id.1
            && self.entity_list[id.0].is_live {
            let g = self.entity_list[id.0].generation;
            let e = &mut self.entity_list[id.0];
            *e = Entry { is_live: false, generation: g };
            self.free_list.push(id.0);
            proof {
                lemma_free_list_ok_after_deallocate(
                    old(self).entity_list@,
                    old(self).free_list@,
                    id,
                );
            }
            Ok(())
        } else {
            Err(EcsError::StaleHandle)
        }
    }

}

/// Allocation keeps the free list sound: the reused slot leaves the free
/// list as it turns live, and a fresh slot arrives live.
pub proof fn lemma_free_list_ok_after_allocate(slots: Seq<Entry>, free: Seq<usize>)
    requires
        free_list_ok(slots, free),
    ensures
        ({
            let (s2, f2, idx) = spec_allocate(slots, free);
            free_list_ok(s2, f2)
        }),
{
    let (s2, f2, idx) = spec_allocate(slots, free);
    if free.len() > 0 {
        let x = free.last();
        assert forall|k: int|
            0 <= k < s2.len() && !(#[trigger] s2[k]).is_live implies exists|i: int|
            0 <= i < f2.len() && #[trigger] f2[i] == k by {
            assert(s2[x as int].is_live);
            assert(slots[k] == s2[k]);
            let i = choose|i: int| 0 <= i < free.len() && #[trigger] free[i] == k;
            assert(i != free.len() - 1);
            assert(f2[i] == k);
        }
    } else {
        assert forall|k: int|
            0 <= k < s2.len() && !(#[trigger] s2[k]).is_live implies exists|i: int|
            0 <= i < f2.len() && #[trigger] f2[i] == k by {
            if k < slots.len() {
                assert(slots[k] == s2[k]);
            }
        }
    }
}

/// Deallocation keeps the free list sound: the newly dead slot is parked at
/// its end, and it was not there before because it was live.
pub proof fn lemma_free_list_ok_after_deallocate(slots: Seq<Entry>, free: Seq<usize>, id: EntityIndex)
    requires
        free_list_ok(slots, free),
        can_deallocate(slots, id),
    ensures
        ({
            let (s2, f2) = spec_deallocate(slots, free, id);
            free_list_ok(s2, f2)
        }),
{
    let (s2, f2) = spec_deallocate(slots, free, id);
    assert forall|i: int, j: int| 0 <= i < j < f2.len() implies f2[i] != f2[j] by {
        if j == f2.len() - 1 {
            assert(f2[i] == free[i]);
            assert(!slots[free[i] as int].is_live);
        }
    }
    assert forall|k: int|
        0 <= k < s2.len() && !(#[trigger] s2[k]).is_live implies exists|i: int|
        0 <= i < f2.len() && #[trigger] f2[i] == k by {
        if k == id.0 as int {
            assert(f2[f2.len() - 1] == k);
        } else {
            assert(slots[k] == s2[k]);
            let i = choose|i: int| 0 <= i < free.len() && #[trigger] free[i] == k;
            assert(f2[i] == k);
        }
    }
}

/// A sound free list for slots among which one is live is strictly shorter
/// than the slot list: its members are distinct slot indices and the live
/// slot is not one of them.
pub proof fn lemma_free_list_shorter(slots: Seq<Entry>, free: Seq<usize>, live: int)
    requires
        free_list_ok(slots, free),
        0 <= live < slots.len(),
        slots[live].is_live,
    ensures
        free.len() < slots.len(),
{
    broadcast use vstd::set::group_set_axioms;

    let n = slots.len() as int;
    let fint = Seq::new(free.len(), |i: int| free[i] as int);
    assert(fint.no_duplicates());
    fint.unique_seq_to_set();
    let range = vstd::set_lib::set_int_range(0, n);
    vstd::set_lib::lemma_int_range(0, n);
    let allowed = range.remove(live);
    assert(range.contains(live));
    vstd::set::axiom_set_remove_finite(range, live);
    vstd::set::axiom_set_remove_len(range, live);
    assert(allowed.len() == n - 1);
    assert forall|k: int| fint.to_set().contains(k) implies allowed.contains(k) by {
        let i = choose|i: int| 0 <= i < fint.len() && fint[i] == k;
        assert(free[i] < slots.len());
        assert(!slots[free[i] as int].is_live);
    }
    assert(fint.to_set().subset_of(allowed));
    vstd::set_lib::lemma_len_subset(fint.to_set(), allowed);
    assert(fint.len() <= n - 1);
}

/// The sparse sequence the live-entity iterator walks: one entry per slot
/// ever allocated, present exactly where the slot is live.
pub open spec fn live_entries(slots: Seq<Entry>) -> Seq<Option<Entry>> {
    Seq::new(
        slots.len(),
        |i: int|
            if slots[i].is_live {
                Some(slots[i])
            } else {
                None
            },
    )
}

/// The sequence the all-entities iterator walks: every slot ever allocated,
/// live or dead.
pub open spec fn all_entries(slots: Seq<Entry>) -> Seq<Option<Entry>> {
    Seq::new(slots.len(), |i: int| Some(slots[i]))
}

impl EntityAllocator {
    /// Returns an iterator over the live slots only.
    pub fn get_iter_live<'cs>(&'cs self) -> (r: EntityIteratorLive<'cs>)
        ensures
            r.entries() == live_entries(self.entity_list@),
            r.pos() == 0,
    {
        let r = EntityIteratorLive { st: &self.entity_list, current_index: 0 };
        proof {
            assert(r.entries() =~= live_entries(self.entity_list@));
        }
        r
    }

    /// Returns an iterator over every slot ever allocated, live or dead.
    pub fn get_iter<'cs>(&'cs self) -> (r: EntityIterator<'cs>)
        ensures
            r.entries() == all_entries(self.entity_list@),
            r.pos() == 0,
    {
        let r = EntityIterator { st: &self.entity_list, current_index: 0 };
        proof {
            assert(r.entries() =~= all_entries(self.entity_list@));
        }
        r
    }
}

/// Iterator over the live slots of the allocator.
pub struct EntityIteratorLive<'cs> {
    st: &'cs Vec<Entry>,
    current_index: usize,
}

impl<'cs> EntityIteratorLive<'cs> {
    /// Joins this iterator with another over their common indices.
    pub fn join<O: Iter>(self, other: O) -> (r: ComponentIteratorJoin<Self, O>)
        ensures
            r.0 == self,
            r.1 == other,
    {
        ComponentIteratorJoin(self, other)
    }

    /// Wraps this iterator for plain, hint-free consumption.
    pub fn into_iterator_wrapper(self) -> (r: IteratorWrapper<Self>)
        ensures
            r.0 == self,
    {
        IteratorWrapper(self)
    }
}

impl<'cs> Iter for EntityIteratorLive<'cs> {
    type Item = Entry;

    closed spec fn entries(&self) -> Seq<Option<Entry>> {
        live_entries(self.st@)
    }

    closed spec fn pos(&self) -> int {
        self.current_index as int
    }

    fn next_element(&mut self, until: Option<usize>) -> (r: Option<(Entry, usize)>) {
        let lim = match until {
            Some(u) => u,
            None => 0,
        };
        if lim > self.current_index {
            self.current_index = lim;
        }
        while self.current_index < self.st.len()
            invariant
                self.st == old(self).st,
                self.entries() == old(self).entries(),
                start_of(old(self).pos(), until) <= self.current_index,
                forall|j: int|
                    start_of(old(self).pos(), until) <= j < self.current_index && j
                        < old(self).entries().len() ==> (#[trigger] old(self).entries()[j]) is None,
            decreases self.st@.len() - self.current_index,
        {
            let c = self.current_index;
            self.current_index = c + 1;
            let e = self.st[c];
            if e.is_live {
                return Some((e, c));
            }
        }
        None
    }
}

/// Iterator over every slot of the allocator, live or dead.
pub struct EntityIterator<'cs> {
    st: &'cs Vec<Entry>,
    current_index: usize,
}

impl<'cs> EntityIterator<'cs> {
    /// Joins this iterator with another over their common indices.
    pub fn join<O: Iter>(self, other: O) -> (r: ComponentIteratorJoin<Self, O>)
        ensures
            r.0 == self,
            r.1 == other,
    {
        ComponentIteratorJoin(self, other)
    }

    /// Wraps this iterator for plain, hint-free consumption.
    pub fn into_iterator_wrapper(self) -> (r: IteratorWrapper<Self>)
        ensures
            r.0 == self,
    {
        IteratorWrapper(self)
    }
}

impl<'cs> Iter for EntityIterator<'cs> {
    type Item = Entry;

    closed spec fn entries(&self) -> Seq<Option<Entry>> {
        all_entries(self.st@)
    }

    closed spec fn pos(&self) -> int {
        self.current_index as int
    }

    fn next_element(&mut self, until: Option<usize>) -> (r: Option<(Entry, usize)>) {
        let lim = match until {
            Some(u) => u,
            None => 0,
        };
        if lim > self.current_index {
            self.current_index = lim;
        }
        if self.current_index < self.st.len() {
            let c = self.current_index;
            self.current_index = c + 1;
            Some((self.st[c], c))
        } else {
            None
        }
    }
}

/// Law: a freshly allocated handle can be deallocated, and once it has been
/// deallocated the very same handle is stale.
pub proof fn lemma_allocate_deallocate_roundtrip(slots: Seq<Entry>, free: Seq<usize>)
    requires
        free_list_ok(slots, free),
        slots.len() < usize::MAX,
    ensures
        ({
            let (s1, f1, h) = spec_allocate(slots, free);
            &&& can_deallocate(s1, h)
            &&& !can_deallocate(spec_deallocate(s1, f1, h).0, h)
        }),
{
}

/// Law: at any one time a slot has a single live occupant, so two handles
/// that are both valid now and name the same slot are the same handle.
pub proof fn lemma_live_handles_unique(slots: Seq<Entry>, a: EntityIndex, b: EntityIndex)
    requires
        can_deallocate(slots, a),
        can_deallocate(slots, b),
        a.0 == b.0,
    ensures
        a == b,
{
}

/// Law: deallocating a handle and then allocating again reuses the same slot
/// with a strictly larger generation, so successive occupants of one slot
/// never share a generation.
pub proof fn lemma_generation_strictly_increases(slots: Seq<Entry>, free: Seq<usize>, id: EntityIndex)
    requires
        free_list_ok(slots, free),
        can_deallocate(slots, id),
        id.1 < u64::MAX,
    ensures
        ({
            let (s1, f1) = spec_deallocate(slots, free, id);
            let (s2, f2, h) = spec_allocate(s1, f1);
            &&& h.0 == id.0
            &&& h.1 == id.1 + 1
        }),
{
}

} // verus!
