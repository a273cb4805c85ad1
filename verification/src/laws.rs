//! What holds of combining, whatever the operands.
//!
//! The laws are stated over the relations in which the implementations of
//! [`SemiGroup::add`](crate::contract::SemiGroup::add) are specified:
//! `seq_cloned(a + b, r)` says that `r` may come out of combining the
//! sequences `a` and `b`, and `set_cloned(a.union(b), r)` says the same of
//! two sets. Equations between results need cloning to be exact; nothing
//! else is asked of the element type.

use crate::contract::{
    clone_is_exact, lemma_seq_cloned_exact, lemma_set_cloned_exact, seq_cloned, set_cloned,
};
use vstd::prelude::*;
use vstd::seq_lib::lemma_multiset_commutative;
use vstd::set_lib::{
    lemma_disjoint_iff_empty_intersection, lemma_set_empty_equivalency_len,
    lemma_set_intersect_union_lens,
};

verus! {

/// Combining sequences is associative: `(a + b) + c` and `a + (b + c)` are
/// equally long, and equal where cloning is exact.
pub proof fn lemma_sequence_associative<T: Clone>(
    a: Seq<T>,
    b: Seq<T>,
    c: Seq<T>,
    ab: Seq<T>,
    bc: Seq<T>,
    left: Seq<T>,
    right: Seq<T>,
)
    requires
        seq_cloned(a + b, ab),
        seq_cloned(ab + c, left),
        seq_cloned(b + c, bc),
        seq_cloned(a + bc, right),
    ensures
        left.len() == right.len(),
        clone_is_exact::<T>() ==> left == right,
{
    if clone_is_exact::<T>() {
        lemma_seq_cloned_exact(a + b, ab);
        lemma_seq_cloned_exact(ab + c, left);
        lemma_seq_cloned_exact(b + c, bc);
        lemma_seq_cloned_exact(a + bc, right);
        assert((a + b) + c =~= a + (b + c));
    }
}

/// Combining sequences keeps order and loses nothing: the result is as long
/// as the two operands together, begins with the clones of the first, in its
/// order, and goes on with the clones of the second, in its order.
pub proof fn lemma_sequence_order<T: Clone>(a: Seq<T>, b: Seq<T>, r: Seq<T>)
    requires
        seq_cloned(a + b, r),
    ensures
        r.len() == a.len() + b.len(),
        seq_cloned(a, r.take(a.len() as int)),
        seq_cloned(b, r.skip(a.len() as int)),
        clone_is_exact::<T>() ==> r.take(a.len() as int) == a && r.skip(a.len() as int) == b,
{
    let front = r.take(a.len() as int);
    let back = r.skip(a.len() as int);
    assert forall|i: int| 0 <= i < a.len() implies cloned(a[i], front[i]) by {
        assert(cloned((a + b)[i], r[i]));
    }
    assert forall|j: int| 0 <= j < b.len() implies cloned(b[j], back[j]) by {
        assert(cloned((a + b)[a.len() + j], r[a.len() + j]));
    }
    if clone_is_exact::<T>() {
        lemma_seq_cloned_exact(a, front);
        lemma_seq_cloned_exact(b, back);
    }
}

/// Combining sequences keeps every element as often as the operands hold
/// it: where cloning is exact, the result counts each value as many times
/// as the two operands together. This is what is left of the order of a
/// combination once its elements go into a container that orders them
/// itself.
pub proof fn lemma_sequence_elements<T: Clone>(a: Seq<T>, b: Seq<T>, r: Seq<T>)
    requires
        seq_cloned(a + b, r),
    ensures
        clone_is_exact::<T>() ==> r.to_multiset() == a.to_multiset().add(b.to_multiset()),
{
    if clone_is_exact::<T>() {
        lemma_seq_cloned_exact(a + b, r);
        lemma_multiset_commutative(a, b);
    }
}

/// Combining sets is associative where cloning is exact: `(a + b) + c` and
/// `a + (b + c)` hold the same elements.
pub proof fn lemma_set_associative<T: Clone>(
    a: Set<T>,
    b: Set<T>,
    c: Set<T>,
    ab: Set<T>,
    bc: Set<T>,
    left: Set<T>,
    right: Set<T>,
)
    requires
        set_cloned(a.union(b), ab),
        set_cloned(ab.union(c), left),
        set_cloned(b.union(c), bc),
        set_cloned(a.union(bc), right),
    ensures
        clone_is_exact::<T>() ==> left == right,
{
    if clone_is_exact::<T>() {
        lemma_set_cloned_exact(a.union(b), ab);
        lemma_set_cloned_exact(ab.union(c), left);
        lemma_set_cloned_exact(b.union(c), bc);
        lemma_set_cloned_exact(a.union(bc), right);
        assert(a.union(b).union(c) =~= a.union(b.union(c)));
    }
}

/// Combining a set with itself gives the set back where cloning is exact:
/// what both operands hold is kept once.
pub proof fn lemma_set_idempotent<T: Clone>(a: Set<T>, r: Set<T>)
    requires
        set_cloned(a.union(a), r),
    ensures
        clone_is_exact::<T>() ==> r == a,
{
    if clone_is_exact::<T>() {
        lemma_set_cloned_exact(a.union(a), r);
        assert(a.union(a) =~= a);
    }
}

/// A union is no larger than its two sets together, and exactly as large
/// where they share no element.
pub proof fn lemma_union_len<T>(a: Set<T>, b: Set<T>)
    requires
        a.finite(),
        b.finite(),
    ensures
        a.union(b).finite(),
        a.union(b).len() <= a.len() + b.len(),
        a.union(b).len() == a.len() + b.len() <==> a.disjoint(b),
{
    lemma_set_intersect_union_lens(a, b);
    lemma_disjoint_iff_empty_intersection(a, b);
    lemma_set_empty_equivalency_len(a.intersect(b));
}

/// Combining two finite sets gives a finite set; where cloning is exact it
/// is no larger than the two together, and exactly as large if and only if
/// they share no element.
pub proof fn lemma_set_len<T: Clone>(a: Set<T>, b: Set<T>, r: Set<T>)
    requires
        a.finite(),
        b.finite(),
        set_cloned(a.union(b), r),
    ensures
        r.finite(),
        clone_is_exact::<T>() ==> r.len() <= a.len() + b.len(),
        clone_is_exact::<T>() ==> (r.len() == a.len() + b.len() <==> a.disjoint(b)),
{
    let (from, into) = choose|from: Seq<T>, into: Seq<T>|
        #[trigger] seq_cloned(from, into) && from.to_set() == a.union(b) && into.to_set() == r;
    vstd::seq_lib::seq_to_set_is_finite(into);
    if clone_is_exact::<T>() {
        lemma_set_cloned_exact(a.union(b), r);
        lemma_union_len(a, b);
    }
}

} // verus!
