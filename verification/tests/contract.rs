use semigroup::SemiGroup;

/// The longer of two strings; of two equally long ones, the first.
struct Longest(String);

impl SemiGroup for Longest {
    type A = Longest;

    fn add(&self, b: &Longest) -> Longest {
        Longest(if b.0.len() > self.0.len() { b.0.clone() } else { self.0.clone() })
    }
}

fn combine_all<S: SemiGroup<A = S>>(first: S, rest: &[S]) -> S {
    let mut total = first;
    for next in rest {
        total = total.add(next);
    }
    total
}

#[test]
fn test_trait_is_open_to_other_types() {
    let one = Longest(String::from("ab"));
    let two = Longest(String::from("abc"));

    assert_eq!(one.add(&two).0, "abc");
    assert_eq!(two.add(&one).0, "abc");
    assert_eq!(one.add(&one).0, "ab");
}

#[test]
fn test_trait_serves_generic_code() {
    let words = [String::from("b"), String::from("c")];
    assert_eq!(combine_all(String::from("a"), &words), "abc");

    let runs = [vec![2, 3], vec![], vec![4]];
    assert_eq!(combine_all(vec![1], &runs), vec![1, 2, 3, 4]);

    let longest = combine_all(Longest(String::from("x")), &[Longest(String::from("xyz"))]);
    assert_eq!(longest.0, "xyz");
}
