use semigroup::SemiGroup;
use std::collections::{BTreeSet, HashSet};

#[test]
fn test_hash_set() {
    let one: HashSet<i32> = [1, 2, 3].into_iter().collect();
    let two: HashSet<i32> = [3, 4].into_iter().collect();

    let both = one.add(&two);
    let expected: HashSet<i32> = [1, 2, 3, 4].into_iter().collect();
    assert_eq!(both, expected);
    assert_eq!(both.len(), 4);
}

#[test]
fn test_hash_set_leaves_both_operands_alone() {
    let one: HashSet<i32> = [1, 2, 3].into_iter().collect();
    let two: HashSet<i32> = [3, 4].into_iter().collect();

    let _ = one.add(&two);
    assert_eq!(one, [1, 2, 3].into_iter().collect::<HashSet<i32>>());
    assert_eq!(two, [3, 4].into_iter().collect::<HashSet<i32>>());
}

#[test]
fn test_hash_set_with_itself() {
    let one: HashSet<u64> = [8, 16, 32].into_iter().collect();

    let twice = one.add(&one);
    assert_eq!(twice, one);
    assert_eq!(twice.len(), 3);
}

#[test]
fn test_hash_set_size_of_disjoint_operands() {
    let one: HashSet<u8> = [1, 2].into_iter().collect();
    let two: HashSet<u8> = [3, 4, 5].into_iter().collect();

    assert_eq!(one.add(&two).len(), 5);
}

#[test]
fn test_hash_set_size_of_overlapping_operands() {
    let one: HashSet<u8> = [1, 2, 3].into_iter().collect();
    let two: HashSet<u8> = [2, 3, 4].into_iter().collect();

    let both = one.add(&two);
    assert_eq!(both.len(), 4);
    assert!(both.len() < one.len() + two.len());
}

#[test]
fn test_hash_set_with_an_empty_operand() {
    let none: HashSet<char> = HashSet::new();
    let some: HashSet<char> = ['x', 'y'].into_iter().collect();

    assert_eq!(none.add(&some), some);
    assert_eq!(some.add(&none), some);
    assert_eq!(none.add(&none).len(), 0);
}

#[test]
fn test_hash_set_is_associative() {
    let a: HashSet<i32> = [1, 2].into_iter().collect();
    let b: HashSet<i32> = [2, 3].into_iter().collect();
    let c: HashSet<i32> = [3, 1, 7].into_iter().collect();

    let left = a.add(&b).add(&c);
    let right = a.add(&b.add(&c));
    assert_eq!(left, right);
    assert_eq!(left, [1, 2, 3, 7].into_iter().collect::<HashSet<i32>>());
}

#[test]
fn test_hash_set_of_owned_elements() {
    let one: HashSet<String> = [String::from("a"), String::from("b")].into_iter().collect();
    let two: HashSet<String> = [String::from("b"), String::from("c")].into_iter().collect();

    let both = one.add(&two);
    assert_eq!(both.len(), 3);
    assert!(both.contains("a") && both.contains("b") && both.contains("c"));
}

#[test]
fn test_btree_set() {
    let one: BTreeSet<u32> = [30, 10].into_iter().collect();
    let two: BTreeSet<u32> = [20, 10, 5].into_iter().collect();

    let both = one.add(&two);
    assert_eq!(both.len(), 4);
    assert_eq!(both.into_iter().collect::<Vec<u32>>(), vec![5, 10, 20, 30]);
    assert_eq!(one.into_iter().collect::<Vec<u32>>(), vec![10, 30]);
    assert_eq!(two.into_iter().collect::<Vec<u32>>(), vec![5, 10, 20]);
}

#[test]
fn test_btree_set_order_is_the_elements_own() {
    let one: BTreeSet<i8> = [9, 8, 7].into_iter().collect();
    let two: BTreeSet<i8> = [-1, 8, 100].into_iter().collect();

    let there = one.add(&two);
    let back = two.add(&one);
    assert_eq!(there, back);
    assert_eq!(there.into_iter().collect::<Vec<i8>>(), vec![-1, 7, 8, 9, 100]);
}

#[test]
fn test_btree_set_with_itself() {
    let one: BTreeSet<u16> = [3, 1, 2].into_iter().collect();

    assert_eq!(one.add(&one), one);
}

#[test]
fn test_btree_set_is_associative() {
    let a: BTreeSet<i32> = [5].into_iter().collect();
    let b: BTreeSet<i32> = [4, 5].into_iter().collect();
    let c: BTreeSet<i32> = BTreeSet::new();

    assert_eq!(a.add(&b).add(&c), a.add(&b.add(&c)));
    assert_eq!(a.add(&b).add(&c).into_iter().collect::<Vec<i32>>(), vec![4, 5]);
}
