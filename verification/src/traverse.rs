//! The predicates a directory walk filters with: whether a file name marks a
//! hidden entry and whether it is one particular name. Walking the tree and
//! producing the names is the caller's business.

use vstd::prelude::*;
use vstd::string::StrSliceExecFns;

verus! {

/// Whether `name` marks a hidden entry: it opens with a dot.
pub fn is_hidden(name: &str) -> (r: bool)
    ensures
        r == (name@.len() > 0 && name@[0] == '.'),
{
    let n = name.unicode_len();
    n > 0 && name.get_char(0) == '.'
}

/// Whether `name` is exactly the looked-for file name.
pub fn has_file_name(name: &str, target: &str) -> (r: bool)
    ensures
        r == (name@ == target@),
{
    let n = name.unicode_len();
    if n != target.unicode_len() {
        proof {
            assert(name@.len() != target@.len());
        }
        return false;
    }
    let mut i: usize = 0;
    while i < n
        invariant
            n == name@.len() == target@.len(),
            i <= n,
            forall|k: int| 0 <= k < i ==> name@[k] == target@[k],
        decreases n - i,
    {
        if name.get_char(i) != target.get_char(i) {
            return false;
        }
        i = i + 1;
    }
    proof {
        assert(name@ =~= target@);
    }
    true
}

} // verus!
