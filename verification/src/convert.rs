//! Conversions into a vector that doubles its input: the owned form consumes
//! and reuses the storage, the borrowed form copies first.

use vstd::prelude::*;

verus! {

/// A vector whose every element is twice the element it was made from.
pub struct DoubleVec(pub Vec<i32>);

/// Every element of `s` can be doubled without leaving `i32`.
pub open spec fn all_doubleable(s: Seq<i32>) -> bool {
    forall|k: int| 0 <= k < s.len() ==> i32::MIN <= 2 * #[trigger] s[k] <= i32::MAX
}

impl DoubleVec {
    /// Doubles every element of `value`, reusing its storage.
    pub fn from(value: Vec<i32>) -> (r: DoubleVec)
        requires
            all_doubleable(value@),
        ensures
            r.0@.len() == value@.len(),
            forall|k: int| 0 <= k < value@.len() ==> r.0@[k] == 2 * value@[k],
    {
        let mut v = value;
        let n = v.len();
        for i in 0..n
            invariant
                n == v@.len(),
                v@.len() == value@.len(),
                all_doubleable(value@),
                forall|k: int| i <= k < n ==> v@[k] == value@[k],
                forall|k: int| 0 <= k < i ==> v@[k] == 2 * value@[k],
        {
            let x = v[i];
            v[i] = 2 * x;
        }
        DoubleVec(v)
    }

    /// Doubles every element of `value` into fresh storage.
    pub fn from_slice(value: &[i32]) -> (r: DoubleVec)
        requires
            all_doubleable(value@),
        ensures
            r.0@.len() == value@.len(),
            forall|k: int| 0 <= k < value@.len() ==> r.0@[k] == 2 * value@[k],
    {
        let mut copy: Vec<i32> = Vec::new();
        let n = value.len();
        for i in 0..n
            invariant
                n == value@.len(),
                copy@ =~= value@.take(i as int),
        {
            copy.push(value[i]);
        }
        proof {
            assert(copy@ =~= value@);
        }
        DoubleVec::from(copy)
    }

    /// The doubled elements.
    pub fn as_ref(&self) -> (r: &Vec<i32>)
        ensures
            r@ == self.0@,
    {
        &self.0
    }
}

} // verus!
