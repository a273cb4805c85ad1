//! The hash-set adapter: `HashSet`.
//!
//! Combining two hash sets unites them: an element that both hold is kept
//! once, so the result may be smaller than the two operands together.
//!
//! What a `HashSet<T>` does is known only where `T` hashes and compares as
//! [`obeys_key_model`] asks, so every postcondition here is stated under it.

use crate::contract::{clone_is_exact, lemma_set_cloned_exact, seq_cloned, set_cloned, SemiGroup};
use crate::extension::{lemma_set_extended_twice, set_extended};
use crate::laws::lemma_set_len;
use std::collections::HashSet;
use std::hash::Hash;
use vstd::prelude::*;
use vstd::std_specs::hash::obeys_key_model;
use vstd::std_specs::iter::{IteratorSpec, VerusForLoopWrapper};

verus! {

/// Inserts a clone of each element of `source` into `target`.
fn hash_set_insert_cloned<T: Clone + Hash + Eq>(target: &mut HashSet<T>, source: &HashSet<T>)
    ensures
        obeys_key_model::<T>() ==> source@.finite() && set_extended(
            old(target)@,
            source@,
            final(target)@,
        ),
{
    let ghost before = target@;
    // A set hands out as many elements as it holds; counting them bounds the
    // walk whatever the element type's hashing does.
    let count = source.len();
    let mut walk = VerusForLoopWrapper::new(source.iter(), Ghost(None));
    let ghost all = walk.seq().unref();
    let ghost mut made = Seq::<T>::empty();
    let mut taken: usize = 0;
    proof {
        assert(before.union(made.to_set()) =~= before);
    }
    while taken < count
        invariant
            walk.wf(),
            walk.seq().unref() == all,
            taken <= count,
            obeys_key_model::<T>() ==> {
                &&& all.to_set() == source@
                &&& all.len() == count
                &&& walk.index() == taken
                &&& seq_cloned(all.take(taken as int), made)
                &&& target@ == before.union(made.to_set())
            },
        ensures
            obeys_key_model::<T>() ==> {
                &&& all.to_set() == source@
                &&& seq_cloned(all, made)
                &&& target@ == before.union(made.to_set())
            },
        decreases count - taken,
    {
        let ghost k = walk.index();
        match walk.next() {
            Some(x) => {
                let item = x.clone();
                target.insert(item);
                proof {
                    if obeys_key_model::<T>() {
                        assert(*x == all[k]);
                        made.lemma_push_to_set_commute(item);
                        made = made.push(item);
                        assert(target@ =~= before.union(made.to_set()));
                    }
                }
                taken += 1;
            },
            None => {
                proof {
                    assert(all.take(k) == all);
                }
                break;
            },
        }
        proof {
            if obeys_key_model::<T>() && taken == count {
                assert(all.take(k + 1) == all);
            }
        }
    }
    proof {
        if obeys_key_model::<T>() {
            vstd::seq_lib::seq_to_set_is_finite(all);
        }
    }
}

impl<T: Clone + Hash + Eq> SemiGroup for HashSet<T> {
    type A = HashSet<T>;

    /// The union of `self` and `b`, each element cloned.
    fn add(&self, b: &HashSet<T>) -> (r: HashSet<T>)
        ensures
            obeys_key_model::<T>() ==> r@.finite() && set_cloned(self@.union(b@), r@),
            obeys_key_model::<T>() && clone_is_exact::<T>() ==> r@ == self@.union(b@),
            obeys_key_model::<T>() && clone_is_exact::<T>() ==> r@.len() <= self@.len() + b@.len(),
            obeys_key_model::<T>() && clone_is_exact::<T>() ==> (r@.len() == self@.len() + b@.len()
                <==> self@.disjoint(b@)),
    {
        let mut ret = HashSet::new();
        hash_set_insert_cloned(&mut ret, self);
        let ghost mid = ret@;
        hash_set_insert_cloned(&mut ret, b);
        proof {
            if obeys_key_model::<T>() {
                lemma_set_extended_twice(self@, b@, mid, ret@);
                lemma_set_len(self@, b@, ret@);
                if clone_is_exact::<T>() {
                    lemma_set_cloned_exact(self@.union(b@), ret@);
                }
            }
        }
        ret
    }
}

} // verus!
