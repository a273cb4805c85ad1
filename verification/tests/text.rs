use semigroup::SemiGroup;

#[test]
fn test_string() {
    let one = String::from("one");
    let two = String::from("two");

    assert_eq!(one.add(&two), String::from("onetwo"));
}

#[test]
fn test_string_leaves_both_operands_alone() {
    let one = String::from("one");
    let two = String::from("two");

    let _ = one.add(&two);
    assert_eq!(one, "one");
    assert_eq!(two, "two");
}

#[test]
fn test_string_with_an_empty_operand() {
    let none = String::new();
    let some = String::from("some");

    assert_eq!(none.add(&some), "some");
    assert_eq!(some.add(&none), "some");
    assert_eq!(none.add(&none), "");
}

#[test]
fn test_string_is_associative() {
    let a = String::from("ab");
    let b = String::from("");
    let c = String::from("cde");

    assert_eq!(a.add(&b).add(&c), a.add(&b.add(&c)));
    assert_eq!(a.add(&b).add(&c), "abcde");
}

#[test]
fn test_string_counts_characters_not_bytes() {
    let one = String::from("né");
    let two = String::from("e\u{301}日本");

    let both = one.add(&two);
    assert_eq!(both, "née\u{301}日本");
    assert_eq!(both.chars().count(), one.chars().count() + two.chars().count());
    assert_eq!(both.len(), one.len() + two.len());
}

#[test]
fn test_string_with_itself() {
    let one = String::from("ab");

    assert_eq!(one.add(&one), "abab");
}
