//! Hand-rolled iteration: a Fibonacci stream driven by `next`, and a
//! collection that squares what is pushed into it.

use vstd::prelude::*;

verus! {

/// A stream of Fibonacci numbers: `curr` is the next number handed out,
/// `next` the one after it.
pub struct Fibonacci {
    pub curr: u32,
    pub next: u32,
}

/// The stream positioned at the start of the sequence.
pub fn fibonacci() -> (r: Fibonacci)
    ensures
        r == (Fibonacci { curr: 0, next: 1 }),
{
    Fibonacci { curr: 0, next: 1 }
}

impl Fibonacci {
    /// Hands out the current number and advances the stream one step.
    pub fn next(&mut self) -> (r: Option<u32>)
        requires
            old(self).curr + old(self).next <= u32::MAX,
        ensures
            r == Some(old(self).curr),
            final(self).curr == old(self).next,
            final(self).next == old(self).curr + old(self).next,
    {
        let old_curr = self.curr;
        self.curr = self.next;
        self.next = self.next + old_curr;
        Some(old_curr)
    }
}

/// A vector that stores the square of everything pushed into it, so a reader
/// walking it sees the squares in push order.
pub struct SquaredVec {
    vec: Vec<i32>,
}

impl View for SquaredVec {
    type V = Seq<i32>;

    closed spec fn view(&self) -> Seq<i32> {
        self.vec@
    }
}

impl SquaredVec {
    /// An empty collection.
    pub fn new() -> (r: Self)
        ensures
            r@ == Seq::<i32>::empty(),
    {
        SquaredVec { vec: Vec::new() }
    }

    /// Appends the square of `item`.
    pub fn push(&mut self, item: i32)
        requires
            item * item <= i32::MAX,
        ensures
            final(self)@ == old(self)@.push((item * item) as i32),
    {
        proof {
            assert(item * item >= 0) by (nonlinear_arith);
        }
        self.vec.push(item * item);
    }

    /// The squares collected so far, in push order.
    pub fn as_slice(&self) -> (r: &[i32])
        ensures
            r@ == self@,
    {
        self.vec.as_slice()
    }

    /// How many squares have been collected.
    pub fn len(&self) -> (n: usize)
        ensures
            n == self@.len(),
    {
        self.vec.len()
    }
}

} // verus!
