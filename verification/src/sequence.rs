//! The order-keeping containers: `Vec` and `VecDeque`.
//!
//! Both are combined in the same way: a fresh, empty container takes a clone
//! of every element of the first operand, in its order, and then of every
//! element of the second.

use crate::contract::{clone_is_exact, lemma_seq_cloned_exact, seq_cloned, SemiGroup};
use crate::extension::{lemma_seq_extended_twice, seq_extended};
use std::collections::VecDeque;
use vstd::prelude::*;

verus! {

/// Appends a clone of each element of `source` to `target`, in order.
fn vec_extend_cloned<T: Clone>(target: &mut Vec<T>, source: &Vec<T>)
    ensures
        seq_extended(old(target)@, source@, final(target)@),
{
    let ghost before = target@;
    let mut i: usize = 0;
    while i < source.len()
        invariant
            i <= source@.len(),
            seq_extended(before, source@.take(i as int), target@),
        decreases source@.len() - i,
    {
        target.push(source[i].clone());
        i += 1;
    }
    proof {
        assert(source@.take(i as int) == source@);
    }
}

/// Appends a clone of each element of `source` to the back of `target`, in
/// order.
fn deque_extend_cloned<T: Clone>(target: &mut VecDeque<T>, source: &VecDeque<T>)
    ensures
        seq_extended(old(target)@, source@, final(target)@),
{
    let ghost before = target@;
    let mut i: usize = 0;
    while i < source.len()
        invariant
            i <= source@.len(),
            seq_extended(before, source@.take(i as int), target@),
        decreases source@.len() - i,
    {
        target.push_back(source[i].clone());
        i += 1;
    }
    proof {
        assert(source@.take(i as int) == source@);
    }
}

impl<T: Clone> SemiGroup for Vec<T> {
    type A = Vec<T>;

    /// The elements of `self`, then those of `b`, each cloned.
    fn add(&self, b: &Vec<T>) -> (r: Vec<T>)
        ensures
            r@.len() == self@.len() + b@.len(),
            seq_cloned(self@ + b@, r@),
            clone_is_exact::<T>() ==> r@ == self@ + b@,
    {
        let mut ret = Vec::new();
        vec_extend_cloned(&mut ret, self);
        let ghost mid = ret@;
        vec_extend_cloned(&mut ret, b);
        proof {
            lemma_seq_extended_twice(self@, b@, mid, ret@);
            if clone_is_exact::<T>() {
                lemma_seq_cloned_exact(self@ + b@, ret@);
            }
        }
        ret
    }
}

impl<T: Clone> SemiGroup for VecDeque<T> {
    type A = VecDeque<T>;

    /// The elements of `self`, front to back, then those of `b`, each cloned.
    fn add(&self, b: &VecDeque<T>) -> (r: VecDeque<T>)
        ensures
            r@.len() == self@.len() + b@.len(),
            seq_cloned(self@ + b@, r@),
            clone_is_exact::<T>() ==> r@ == self@ + b@,
    {
        let mut ret = VecDeque::new();
        deque_extend_cloned(&mut ret, self);
        let ghost mid = ret@;
        deque_extend_cloned(&mut ret, b);
        proof {
            lemma_seq_extended_twice(self@, b@, mid, ret@);
            if clone_is_exact::<T>() {
                lemma_seq_cloned_exact(self@ + b@, ret@);
            }
        }
        ret
    }
}

} // verus!
