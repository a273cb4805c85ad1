//! The text adapter: `String`.
//!
//! A string offers no element-wise insertion of the kind the other
//! containers have, so it is combined by appending whole strings.

use crate::contract::SemiGroup;
use vstd::prelude::*;
use vstd::string::StringExecFns;

verus! {

impl SemiGroup for String {
    type A = String;

    /// The characters of `self` followed by those of `b`.
    fn add(&self, b: &String) -> (r: String)
        ensures
            r@ == self@ + b@,
            r@.len() == self@.len() + b@.len(),
    {
        let mut ret = String::new();
        ret.append(self.as_str());
        ret.append(b.as_str());
        ret
    }
}

} // verus!
