//! A constructor that hides internal state: a name stored together with its
//! length, computed once on construction and kept consistent by contract.

use vstd::prelude::*;
use vstd::string::StrSliceExecFns;

verus! {

/// A name and how many characters it has.
pub struct NameLength {
    pub name: String,
    pub length: usize,
}

impl NameLength {
    /// Stores `name` together with its character count.
    pub fn new_(name: &str) -> (r: Self)
        ensures
            r.name@ == name@,
            r.length == name@.len(),
    {
        let length = name.unicode_len();
        NameLength { name: name.to_owned(), length }
    }
}

} // verus!
