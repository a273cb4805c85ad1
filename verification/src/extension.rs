//! One step of combining: a container that takes a clone of every element of
//! another. Every implementation of `add` makes two such steps, starting
//! from an empty container.

use crate::contract::{seq_cloned, set_cloned};
use vstd::prelude::*;

verus! {

/// `after` is `before` followed by a clone of each element of `source`, in
/// the order of `source`.
pub open spec fn seq_extended<T: Clone>(before: Seq<T>, source: Seq<T>, after: Seq<T>) -> bool {
    &&& after.len() == before.len() + source.len()
    &&& forall|i: int| 0 <= i < before.len() ==> #[trigger] after[i] == before[i]
    &&& forall|j: int|
        0 <= j < source.len() ==> cloned(#[trigger] source[j], after[before.len() + j])
}

/// `after` is `before` with a clone of every element of `source` put in.
pub open spec fn set_extended<T: Clone>(before: Set<T>, source: Set<T>, after: Set<T>) -> bool {
    exists|from: Seq<T>, into: Seq<T>|
        #[trigger] seq_cloned(from, into) && from.to_set() == source && after == before.union(
            into.to_set(),
        )
}

/// Two steps in a row, starting from nothing, give a clone of the
/// concatenation.
pub proof fn lemma_seq_extended_twice<T: Clone>(a: Seq<T>, b: Seq<T>, mid: Seq<T>, r: Seq<T>)
    requires
        seq_extended(Seq::<T>::empty(), a, mid),
        seq_extended(mid, b, r),
    ensures
        seq_cloned(a + b, r),
{
    let s = a + b;
    assert forall|i: int| 0 <= i < s.len() implies cloned(s[i], r[i]) by {
        if i < a.len() {
            assert(r[i] == mid[i]);
            assert(cloned(a[i], mid[0 + i]));
        } else {
            assert(cloned(b[i - a.len()], r[mid.len() + (i - a.len())]));
        }
    }
}

/// The elements of a concatenation are those of its two parts.
pub proof fn lemma_concat_to_set<T>(x: Seq<T>, y: Seq<T>)
    ensures
        (x + y).to_set() == x.to_set().union(y.to_set()),
{
    let s = x + y;
    assert forall|e: T| s.to_set().contains(e) <==> x.to_set().contains(e) || y.to_set().contains(
        e,
    ) by {
        if s.contains(e) {
            let i = choose|i: int| 0 <= i < s.len() && s[i] == e;
            if i < x.len() {
                assert(x[i] == e);
            } else {
                assert(y[i - x.len()] == e);
            }
        }
        if x.contains(e) {
            let i = choose|i: int| 0 <= i < x.len() && x[i] == e;
            assert(s[i] == e);
        }
        if y.contains(e) {
            let j = choose|j: int| 0 <= j < y.len() && y[j] == e;
            assert(s[x.len() + j] == e);
        }
    }
    assert(s.to_set() =~= x.to_set().union(y.to_set()));
}

/// Two steps in a row, starting from nothing, give the clones of the union.
pub proof fn lemma_set_extended_twice<T: Clone>(a: Set<T>, b: Set<T>, mid: Set<T>, r: Set<T>)
    requires
        set_extended(Set::<T>::empty(), a, mid),
        set_extended(mid, b, r),
    ensures
        set_cloned(a.union(b), r),
{
    let (from1, into1) = choose|from: Seq<T>, into: Seq<T>|
        #[trigger] seq_cloned(from, into) && from.to_set() == a && mid == Set::<T>::empty().union(
            into.to_set(),
        );
    let (from2, into2) = choose|from: Seq<T>, into: Seq<T>|
        #[trigger] seq_cloned(from, into) && from.to_set() == b && r == mid.union(into.to_set());
    let from = from1 + from2;
    let into = into1 + into2;
    assert forall|i: int| 0 <= i < from.len() implies cloned(from[i], into[i]) by {
        if i < from1.len() {
            assert(cloned(from1[i], into1[i]));
        } else {
            assert(cloned(from2[i - from1.len()], into2[i - from1.len()]));
        }
    }
    lemma_concat_to_set(from1, from2);
    lemma_concat_to_set(into1, into2);
    assert(mid =~= into1.to_set());
    assert(seq_cloned(from, into));
}

} // verus!
