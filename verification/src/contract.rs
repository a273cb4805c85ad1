//! The combining contract and the vocabulary its implementations are
//! specified in.

use vstd::prelude::*;

verus! {

/// A type with an associative way of combining two of its values into a
/// third, leaving both operands as they were.
///
/// The trait itself promises nothing to the verifier, so that any type can
/// implement it; each implementation in this crate states its own
/// postcondition.
pub trait SemiGroup {
    /// What a combination yields.
    type A;

    /// Combines `self` with `b` into a new value.
    fn add(&self, b: &Self::A) -> Self::A;
}

/// Cloning a `T` always gives back a value equal to the one cloned.
///
/// This holds of the primitive types, of references and of `String`; of a
/// type whose `clone` has no postcondition it cannot be shown.
pub open spec fn clone_is_exact<T: Clone>() -> bool {
    forall|x: T, y: T| #[trigger] cloned(x, y) ==> x == y
}

/// `r` holds, position by position, a clone of each element of `s`.
pub open spec fn seq_cloned<T: Clone>(s: Seq<T>, r: Seq<T>) -> bool {
    &&& r.len() == s.len()
    &&& forall|i: int|
        #![trigger s[i]]
        #![trigger r[i]]
        0 <= i < s.len() ==> cloned(s[i], r[i])
}

/// `r` is what is left of cloning the elements of `s` one by one and putting
/// each clone into a set: some listing of `s` and some listing of `r` match
/// clone by clone.
pub open spec fn set_cloned<T: Clone>(s: Set<T>, r: Set<T>) -> bool {
    exists|from: Seq<T>, into: Seq<T>|
        #[trigger] seq_cloned(from, into) && from.to_set() == s && into.to_set() == r
}

/// Where cloning is exact, a sequence of clones is the sequence itself.
pub proof fn lemma_seq_cloned_exact<T: Clone>(s: Seq<T>, r: Seq<T>)
    requires
        clone_is_exact::<T>(),
        seq_cloned(s, r),
    ensures
        r == s,
{
    assert(r =~= s);
}

/// Where cloning is exact, a set of clones is the set itself.
pub proof fn lemma_set_cloned_exact<T: Clone>(s: Set<T>, r: Set<T>)
    requires
        clone_is_exact::<T>(),
        set_cloned(s, r),
    ensures
        r == s,
{
    let (from, into) = choose|from: Seq<T>, into: Seq<T>|
        #[trigger] seq_cloned(from, into) && from.to_set() == s && into.to_set() == r;
    lemma_seq_cloned_exact(from, into);
}

} // verus!
