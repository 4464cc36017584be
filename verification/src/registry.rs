//! Kind registry plumbing: an association list keyed by a stable kind
//! identifier. Keeping the kinds pairwise distinct is the invariant that
//! makes a registered kind correspond to exactly one stored value, so no
//! lookup can ever surface a value of the wrong kind.

use vstd::prelude::*;

verus! {

/// The registry invariant: no kind identifier occurs twice.
pub open spec fn distinct_kinds<V>(s: Seq<(u64, V)>) -> bool {
    forall|i: int, j: int| 0 <= i < j < s.len() ==> (#[trigger] s[i]).0 != (#[trigger] s[j]).0
}

/// Some entry carries the given kind.
pub open spec fn has_kind<V>(s: Seq<(u64, V)>, kind: u64) -> bool {
    exists|i: int| 0 <= i < s.len() && (#[trigger] s[i]).0 == kind
}

/// The position of the entry carrying the given kind.
pub open spec fn index_of_kind<V>(s: Seq<(u64, V)>, kind: u64) -> int {
    choose|i: int| 0 <= i < s.len() && (#[trigger] s[i]).0 == kind
}

/// The value registered under the given kind, if any.
pub open spec fn spec_lookup<V>(s: Seq<(u64, V)>, kind: u64) -> Option<V> {
    if has_kind(s, kind) {
        Some(s[index_of_kind(s, kind)].1)
    } else {
        None
    }
}

/// Finds the position of the entry carrying the given kind.
pub fn find_kind<V>(s: &Vec<(u64, V)>, kind: u64) -> (r: Option<usize>)
    requires
        distinct_kinds(s@),
    ensures
        match r {
            Some(i) => {
                &&& i < s@.len()
                &&& s@[i as int].0 == kind
                &&& has_kind(s@, kind)
                &&& index_of_kind(s@, kind) == i
                &&& spec_lookup(s@, kind) == Some(s@[i as int].1)
            },
            None => !has_kind(s@, kind),
        },
{
    let mut i: usize = 0;
    while i < s.len()
        invariant
            distinct_kinds(s@),
            i <= s@.len(),
            forall|j: int| 0 <= j < i ==> (#[trigger] s@[j]).0 != kind,
        decreases s@.len() - i,
    {
        if s[i].0 == kind {
            proof {
                let w = index_of_kind(s@, kind);
                assert(s@[w].0 == kind);
                assert(w == i);
            }
            return Some(i);
        }
        i = i + 1;
    }
    None
}

/// With distinct kinds, the entry at any position is exactly the entry its
/// own kind looks up.
pub proof fn lemma_kind_at_position<V>(s: Seq<(u64, V)>, p: int)
    requires
        distinct_kinds(s),
        0 <= p < s.len(),
    ensures
        has_kind(s, s[p].0),
        index_of_kind(s, s[p].0) == p,
        spec_lookup(s, s[p].0) == Some(s[p].1),
{
    assert(has_kind(s, s[p].0));
    let i = index_of_kind(s, s[p].0);
    assert(s[i].0 == s[p].0);
    assert(i == p);
}

/// Registering a fresh kind keeps the kinds distinct, stores the new value
/// under the new kind, and leaves every other kind's value untouched.
pub proof fn lemma_lookup_push<V>(s: Seq<(u64, V)>, kind: u64, v: V)
    requires
        distinct_kinds(s),
        !has_kind(s, kind),
    ensures
        distinct_kinds(s.push((kind, v))),
        has_kind(s.push((kind, v)), kind),
        spec_lookup(s.push((kind, v)), kind) == Some(v),
        forall|k2: u64|
            k2 != kind ==> #[trigger] spec_lookup(s.push((kind, v)), k2) == spec_lookup(s, k2),
        forall|k2: u64| k2 != kind ==> (#[trigger] has_kind(s.push((kind, v)), k2) <==> has_kind(
            s,
            k2,
        )),
{
    let s2 = s.push((kind, v));
    assert(s2[s.len() as int].0 == kind);
    assert forall|i: int, j: int| 0 <= i < j < s2.len() implies (#[trigger] s2[i]).0 != (
    #[trigger] s2[j]).0 by {
        if j == s.len() as int {
            assert(s2[i] == s[i]);
        }
    }
    let w = index_of_kind(s2, kind);
    assert(s2[w].0 == kind);
    assert(w == s.len() as int);
    assert forall|k2: u64| k2 != kind implies (#[trigger] has_kind(s2, k2) <==> has_kind(
        s,
        k2,
    )) by {
        if has_kind(s2, k2) {
            let i = index_of_kind(s2, k2);
            assert(s2[i].0 == k2);
            assert(i < s.len());
            assert(s[i].0 == k2);
        }
        if has_kind(s, k2) {
            let i = index_of_kind(s, k2);
            assert(s[i].0 == k2);
            assert(s2[i].0 == k2);
        }
    }
    assert forall|k2: u64| k2 != kind implies #[trigger] spec_lookup(s2, k2) == spec_lookup(
        s,
        k2,
    ) by {
        if has_kind(s, k2) {
            let i1 = index_of_kind(s, k2);
            let i2 = index_of_kind(s2, k2);
            assert(s[i1].0 == k2);
            assert(s2[i2].0 == k2);
            assert(i2 < s.len());
            assert(s[i2].0 == k2);
            assert(i1 == i2);
            assert(s2[i2] == s[i2]);
        }
    }
}

/// Overwriting the value stored at a kind's own position keeps the kinds
/// distinct, stores the new value under that kind, and leaves every other
/// kind's value untouched.
pub proof fn lemma_lookup_update<V>(s: Seq<(u64, V)>, i: int, kind: u64, v: V)
    requires
        distinct_kinds(s),
        0 <= i < s.len(),
        s[i].0 == kind,
    ensures
        distinct_kinds(s.update(i, (kind, v))),
        has_kind(s.update(i, (kind, v)), kind),
        spec_lookup(s.update(i, (kind, v)), kind) == Some(v),
        forall|k2: u64|
            k2 != kind ==> #[trigger] spec_lookup(s.update(i, (kind, v)), k2) == spec_lookup(s, k2),
        forall|k2: u64|
            #[trigger] has_kind(s.update(i, (kind, v)), k2) <==> has_kind(s, k2),
{
    let s2 = s.update(i, (kind, v));
    assert forall|a: int, b: int| 0 <= a < b < s2.len() implies (#[trigger] s2[a]).0 != (
    #[trigger] s2[b]).0 by {
        assert(s2[a].0 == s[a].0);
        assert(s2[b].0 == s[b].0);
    }
    assert(s2[i].0 == kind);
    let w = index_of_kind(s2, kind);
    assert(s2[w].0 == kind);
    assert(s[w].0 == kind);
    assert(w == i);
    assert forall|k2: u64| #[trigger] has_kind(s2, k2) <==> has_kind(s, k2) by {
        if has_kind(s2, k2) {
            let a = index_of_kind(s2, k2);
            assert(s2[a].0 == k2);
            assert(s[a].0 == k2);
        }
        if has_kind(s, k2) {
            let a = index_of_kind(s, k2);
            assert(s[a].0 == k2);
            assert(s2[a].0 == k2);
        }
    }
    assert forall|k2: u64| k2 != kind implies #[trigger] spec_lookup(s2, k2) == spec_lookup(
        s,
        k2,
    ) by {
        if has_kind(s, k2) {
            let i1 = index_of_kind(s, k2);
            let i2 = index_of_kind(s2, k2);
            assert(s[i1].0 == k2);
            assert(s2[i2].0 == k2);
            assert(s[i2].0 == k2);
            assert(i1 == i2);
            assert(i1 != i);
        }
    }
}

/// Removing a kind's entry keeps the kinds distinct, forgets that kind, and
/// leaves every other kind's value untouched.
pub proof fn lemma_lookup_remove<V>(s: Seq<(u64, V)>, i: int, kind: u64)
    requires
        distinct_kinds(s),
        0 <= i < s.len(),
        s[i].0 == kind,
    ensures
        distinct_kinds(s.remove(i)),
        !has_kind(s.remove(i), kind),
        forall|k2: u64|
            k2 != kind ==> #[trigger] spec_lookup(s.remove(i), k2) == spec_lookup(s, k2),
        forall|k2: u64|
            k2 != kind ==> (#[trigger] has_kind(s.remove(i), k2) <==> has_kind(s, k2)),
{
    let s2 = s.remove(i);
    assert forall|a: int, b: int| 0 <= a < b < s2.len() implies (#[trigger] s2[a]).0 != (
    #[trigger] s2[b]).0 by {
        let a0 = if a < i {
            a
        } else {
            a + 1
        };
        let b0 = if b < i {
            b
        } else {
            b + 1
        };
        assert(s2[a] == s[a0]);
        assert(s2[b] == s[b0]);
    }
    assert forall|a: int| 0 <= a < s2.len() implies (#[trigger] s2[a]).0 != kind by {
        let a0 = if a < i {
            a
        } else {
            a + 1
        };
        assert(s2[a] == s[a0]);
        assert(a0 != i);
    }
    if has_kind(s2, kind) {
        let a = index_of_kind(s2, kind);
        assert(s2[a].0 == kind);
    }
    assert forall|k2: u64| k2 != kind implies (#[trigger] has_kind(s2, k2) <==> has_kind(
        s,
        k2,
    )) by {
        if has_kind(s2, k2) {
            let a = index_of_kind(s2, k2);
            assert(s2[a].0 == k2);
            let a0 = if a < i {
                a
            } else {
                a + 1
            };
            assert(s2[a] == s[a0]);
        }
        if has_kind(s, k2) {
            let a = index_of_kind(s, k2);
            assert(s[a].0 == k2);
            assert(a != i);
            let a2 = if a < i {
                a
            } else {
                a - 1
            };
            assert(s2[a2] == s[a]);
        }
    }
    assert forall|k2: u64| k2 != kind implies #[trigger] spec_lookup(s2, k2) == spec_lookup(
        s,
        k2,
    ) by {
        if has_kind(s, k2) {
            let i1 = index_of_kind(s, k2);
            assert(s[i1].0 == k2);
            let i2 = index_of_kind(s2, k2);
            assert(s2[i2].0 == k2);
            let i20 = if i2 < i {
                i2
            } else {
                i2 + 1
            };
            assert(s2[i2] == s[i20]);
            assert(s[i20].0 == k2);
            assert(i20 == i1);
        }
    }
}

} // verus!
