//! The Fibonacci numbers, computed iteratively.
use vstd::prelude::*;

verus! {

/// The `n`-th Fibonacci number: 0, 1, 1, 2, 3, 5, ...
pub open spec fn fib(n: nat) -> nat
    decreases n,
{
    if n == 0 {
        0
    } else if n == 1 {
        1
    } else {
        fib((n - 1) as nat) + fib((n - 2) as nat)
    }
}

proof fn lemma_fib_monotone(i: nat, j: nat)
    requires
        i <= j,
    ensures
        fib(i) <= fib(j),
    decreases j - i,
{
    if i < j {
        lemma_fib_monotone(i, (j - 1) as nat);
        if j >= 2 {
            assert(fib(j) == fib((j - 1) as nat) + fib((j - 2) as nat));
        } else {
            assert(j == 1 && i == 0);
        }
    }
}

/// The `n`-th Fibonacci number; 0 for every `n` below 1. The result must fit
/// in an `i32`, which holds up to `n == 46`.
pub fn fib_rs(n: i32) -> (r: i32)
    requires
        n <= 0 || fib(n as nat) <= i32::MAX,
    ensures
        n <= 0 ==> r == 0,
        n > 0 ==> r as int == fib(n as nat),
{
    if n <= 0 {
        0
    } else if n == 1 {
        1
    } else {
        let mut a: i32 = 0;
        let mut b: i32 = 1;
        let mut k: i32 = 0;
        while k < n - 1
            invariant
                1 < n,
                0 <= k <= n - 1,
                fib(n as nat) <= i32::MAX,
                a as int == fib(k as nat),
                b as int == fib((k + 1) as nat),
            decreases n - 1 - k,
        {
            proof {
                lemma_fib_monotone((k + 2) as nat, n as nat);
                assert(fib((k + 2) as nat) == fib((k + 1) as nat) + fib(k as nat));
            }
            let temp = a;
            a = b;
            b = temp + b;
            k = k + 1;
        }
        b
    }
}

} // verus!
