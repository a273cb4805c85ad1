//! The ordered-set adapter: `BTreeSet`.
//!
//! The operands are read in their own order, smallest element first, but
//! where an element ends up is decided by the set that takes it: the result
//! is the union of the two, in the order of its elements, not in the order
//! in which they were put in.
//!
//! What a `BTreeSet<T>` does is known only where `T` compares as
//! [`obeys_cmp`] asks, so every postcondition here is stated under it.

use crate::contract::{clone_is_exact, lemma_set_cloned_exact, seq_cloned, set_cloned, SemiGroup};
use crate::extension::{lemma_set_extended_twice, set_extended};
use crate::laws::lemma_set_len;
use std::collections::BTreeSet;
use vstd::laws_cmp::obeys_cmp;
use vstd::prelude::*;
use vstd::std_specs::iter::{IteratorSpec, VerusForLoopWrapper};

verus! {

/// Inserts a clone of each element of `source` into `target`.
fn btree_set_insert_cloned<T: Clone + Ord>(target: &mut BTreeSet<T>, source: &BTreeSet<T>)
    ensures
        obeys_cmp::<T>() ==> source@.finite() && set_extended(
            old(target)@,
            source@,
            final(target)@,
        ),
{
    let ghost before = target@;
    // A set hands out as many elements as it holds; counting them bounds the
    // walk whatever the element type's ordering does.
    let count = source.len();
    let mut walk = VerusForLoopWrapper::new(source.iter(), Ghost(None));
    let ghost all = walk.seq().unref();
    let ghost mut made = Seq::<T>::empty();
    let mut taken: usize = 0;
    proof {
        assert(before.union(made.to_set()) =~= before);
    }
    while taken < count
        invariant
            walk.wf(),
            walk.seq().unref() == all,
            taken <= count,
            obeys_cmp::<T>() ==> {
                &&& all.to_set() == source@
                &&& all.len() == count
                &&& walk.index() == taken
                &&& seq_cloned(all.take(walk.index()), made)
                &&& target@ == before.union(made.to_set())
            },
        ensures
            obeys_cmp::<T>() ==> {
                &&& all.to_set() == source@
                &&& seq_cloned(all, made)
                &&& target@ == before.union(made.to_set())
            },
        decreases count - taken,
    {
        let ghost k = walk.index();
        match walk.next() {
            Some(x) => {
                let item = x.clone();
                target.insert(item);
                proof {
                    if obeys_cmp::<T>() {
                        assert(*x == all[k]);
                        made.lemma_push_to_set_commute(item);
                        made = made.push(item);
                        assert(target@ =~= before.union(made.to_set()));
                    }
                }
                taken += 1;
            },
            None => {
                proof {
                    assert(all.take(k) == all);
                }
                break;
            },
        }
        proof {
            if obeys_cmp::<T>() && taken == count {
                assert(all.take(k + 1) == all);
            }
        }
    }
    proof {
        if obeys_cmp::<T>() {
            vstd::seq_lib::seq_to_set_is_finite(all);
        }
    }
}

impl<T: Clone + Ord> SemiGroup for BTreeSet<T> {
    type A = BTreeSet<T>;

    /// The union of `self` and `b`, each element cloned.
    fn add(&self, b: &BTreeSet<T>) -> (r: BTreeSet<T>)
        ensures
            obeys_cmp::<T>() ==> r@.finite() && set_cloned(self@.union(b@), r@),
            obeys_cmp::<T>() && clone_is_exact::<T>() ==> r@ == self@.union(b@),
            obeys_cmp::<T>() && clone_is_exact::<T>() ==> r@.len() <= self@.len() + b@.len(),
            obeys_cmp::<T>() && clone_is_exact::<T>() ==> (r@.len() == self@.len() + b@.len()
                <==> self@.disjoint(b@)),
    {
        let mut ret = BTreeSet::new();
        btree_set_insert_cloned(&mut ret, self);
        let ghost mid = ret@;
        btree_set_insert_cloned(&mut ret, b);
        proof {
            if obeys_cmp::<T>() {
                lemma_set_extended_twice(self@, b@, mid, ret@);
                lemma_set_len(self@, b@, ret@);
                if clone_is_exact::<T>() {
                    lemma_set_cloned_exact(self@.union(b@), ret@);
                }
            }
        }
        ret
    }
}

} // verus!
