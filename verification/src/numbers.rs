//! Arithmetic over slices and the Fibonacci numbers: pieces of work fit to be
//! handed out to parallel workers, each proved against its mathematical
//! definition. Splitting a slice into buckets and joining the workers is the
//! caller's plumbing; the arithmetic itself lives here.

use vstd::prelude::*;

verus! {

/// The Fibonacci sequence.
pub open spec fn fib(n: nat) -> nat
    decreases n,
{
    if n == 0 {
        0
    } else if n == 1 {
        1
    } else {
        fib((n - 1) as nat) + fib((n - 2) as nat)
    }
}

/// The Fibonacci sequence never goes down.
pub proof fn lemma_fib_monotonic(i: nat, j: nat)
    requires
        i <= j,
    ensures
        fib(i) <= fib(j),
    decreases j - i,
{
    if i < j {
        lemma_fib_monotonic(i, (j - 1) as nat);
        if j >= 2 {
            assert(fib(j) == fib((j - 1) as nat) + fib((j - 2) as nat));
        }
    }
}

/// The `n`-th Fibonacci number, by the plain double recursion. (A caller is
/// free to evaluate the two branches on parallel workers; the value is the
/// same.)
pub fn fibonacci(n: u32) -> (r: u32)
    requires
        fib(n as nat) <= u32::MAX,
    ensures
        r == fib(n as nat),
    decreases n,
{
    if n == 0 || n == 1 {
        n
    } else {
        proof {
            lemma_fib_monotonic((n - 1) as nat, n as nat);
            lemma_fib_monotonic((n - 2) as nat, n as nat);
        }
        let a = fibonacci(n - 1);
        let b = fibonacci(n - 2);
        a + b
    }
}

/// The sum of the numbers of `s`.
pub open spec fn sum_of(s: Seq<i32>) -> int
    decreases s.len(),
{
    if s.len() == 0 {
        0
    } else {
        sum_of(s.drop_last()) + s.last()
    }
}

/// The magnitude of one number.
pub open spec fn abs_of(x: i32) -> int {
    if x >= 0 {
        x as int
    } else {
        -(x as int)
    }
}

/// The sum of the magnitudes of the numbers of `s` — a bound under which no
/// partial sum can overflow.
pub open spec fn abs_sum(s: Seq<i32>) -> int
    decreases s.len(),
{
    if s.len() == 0 {
        0
    } else {
        abs_sum(s.drop_last()) + abs_of(s.last())
    }
}

/// The sum stays within the sum of magnitudes.
proof fn lemma_sum_within_abs(s: Seq<i32>)
    ensures
        0 <= abs_sum(s),
        -abs_sum(s) <= sum_of(s) <= abs_sum(s),
    decreases s.len(),
{
    if s.len() > 0 {
        lemma_sum_within_abs(s.drop_last());
    }
}

/// One more element extends the sum and the magnitude sum by that element.
proof fn lemma_sum_take_step(s: Seq<i32>, i: int)
    requires
        0 <= i < s.len(),
    ensures
        sum_of(s.take(i + 1)) == sum_of(s.take(i)) + s[i],
        abs_sum(s.take(i + 1)) == abs_sum(s.take(i)) + abs_of(s[i]),
{
    assert(s.take(i + 1).drop_last() =~= s.take(i));
    assert(s.take(i + 1).last() == s[i]);
}

/// A prefix never carries more magnitude than the whole.
proof fn lemma_abs_sum_take_le(s: Seq<i32>, i: int)
    requires
        0 <= i <= s.len(),
    ensures
        abs_sum(s.take(i)) <= abs_sum(s),
    decreases s.len() - i,
{
    if i == s.len() {
        assert(s.take(i) =~= s);
    } else {
        lemma_sum_take_step(s, i);
        lemma_abs_sum_take_le(s, i + 1);
    }
}

/// Sums one bucket of numbers. The precondition keeps every partial sum
/// representable, whatever order the magnitudes come in.
pub fn sum_bucket(range: &[i32]) -> (r: i32)
    requires
        abs_sum(range@) <= i32::MAX,
    ensures
        r == sum_of(range@),
{
    let mut sum: i32 = 0;
    let n = range.len();
    for i in 0..n
        invariant
            n == range@.len(),
            abs_sum(range@) <= i32::MAX,
            sum == sum_of(range@.take(i as int)),
            -abs_sum(range@.take(i as int)) <= sum <= abs_sum(range@.take(i as int)),
    {
        proof {
            lemma_sum_take_step(range@, i as int);
            lemma_abs_sum_take_le(range@, i as int + 1);
            lemma_sum_within_abs(range@.take(i as int));
        }
        sum = sum + range[i];
    }
    proof {
        assert(range@.take(n as int) =~= range@);
    }
    sum
}

} // verus!
