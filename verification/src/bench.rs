//! Two CPU-bound workloads for timing a host: a counting loop and the naive
//! recursive Fibonacci numbers.

use vstd::prelude::*;

verus! {

/// How far the counting loop counts.
pub const COUNT_TARGET: i32 = 1000000000;

/// The Fibonacci numbers: 0, 1, 1, 2, 3, 5, ... Zero for every `n` below one.
pub open spec fn fibonacci(n: int) -> int
    decreases n,
{
    if n <= 0 {
        0
    } else if n == 1 {
        1
    } else {
        fibonacci(n - 1) + fibonacci(n - 2)
    }
}

/// The largest `n` whose Fibonacci number fits an `i32`.
pub const FIBONACCI_LIMIT: i32 = 46;

/// No Fibonacci number is negative.
pub proof fn lemma_fibonacci_nonnegative(n: int)
    ensures
        0 <= fibonacci(n),
    decreases n,
{
    if n >= 2 {
        lemma_fibonacci_nonnegative(n - 1);
        lemma_fibonacci_nonnegative(n - 2);
    }
}

/// The Fibonacci numbers do not decrease.
pub proof fn lemma_fibonacci_grows(i: int, j: int)
    requires
        i <= j,
    ensures
        fibonacci(i) <= fibonacci(j),
    decreases j - i,
{
    if i < j {
        lemma_fibonacci_grows(i, j - 1);
        lemma_fibonacci_nonnegative(j - 2);
    }
}

/// The last Fibonacci number that fits an `i32`.
pub proof fn lemma_fibonacci_at_limit()
    ensures
        fibonacci(46) == 1836311903,
{
    assert(fibonacci(0) == 0);
    assert(fibonacci(1) == 1);
    assert(fibonacci(2) == 1);
    assert(fibonacci(3) == 2);
    assert(fibonacci(4) == 3);
    assert(fibonacci(5) == 5);
    assert(fibonacci(6) == 8);
    assert(fibonacci(7) == 13);
    assert(fibonacci(8) == 21);
    assert(fibonacci(9) == 34);
    assert(fibonacci(10) == 55);
    assert(fibonacci(11) == 89);
    assert(fibonacci(12) == 144);
    assert(fibonacci(13) == 233);
    assert(fibonacci(14) == 377);
    assert(fibonacci(15) == 610);
    assert(fibonacci(16) == 987);
    assert(fibonacci(17) == 1597);
    assert(fibonacci(18) == 2584);
    assert(fibonacci(19) == 4181);
    assert(fibonacci(20) == 6765);
    assert(fibonacci(21) == 10946);
    assert(fibonacci(22) == 17711);
    assert(fibonacci(23) == 28657);
    assert(fibonacci(24) == 46368);
    assert(fibonacci(25) == 75025);
    assert(fibonacci(26) == 121393);
    assert(fibonacci(27) == 196418);
    assert(fibonacci(28) == 317811);
    assert(fibonacci(29) == 514229);
    assert(fibonacci(30) == 832040);
    assert(fibonacci(31) == 1346269);
    assert(fibonacci(32) == 2178309);
    assert(fibonacci(33) == 3524578);
    assert(fibonacci(34) == 5702887);
    assert(fibonacci(35) == 9227465);
    assert(fibonacci(36) == 14930352);
    assert(fibonacci(37) == 24157817);
    assert(fibonacci(38) == 39088169);
    assert(fibonacci(39) == 63245986);
    assert(fibonacci(40) == 102334155);
    assert(fibonacci(41) == 165580141);
    assert(fibonacci(42) == 267914296);
    assert(fibonacci(43) == 433494437);
    assert(fibonacci(44) == 701408733);
    assert(fibonacci(45) == 1134903170);
    assert(fibonacci(46) == 1836311903);
}

/// Counts from zero to [`COUNT_TARGET`] in steps of one and returns where it
/// arrived.
pub fn add1000000000_wasm() -> (count: i32)
    ensures
        count == COUNT_TARGET,
{
    let mut i: i32 = 0;
    while i < COUNT_TARGET
        invariant
            0 <= i <= COUNT_TARGET,
        decreases COUNT_TARGET - i,
    {
        i += 1;
    }
    i
}

/// The `n`-th Fibonacci number, by plain recursion. `n` is at most
/// [`FIBONACCI_LIMIT`]: the next number does not fit the result.
pub fn fibonacci_wasm(n: i32) -> (value: i32)
    requires
        n <= FIBONACCI_LIMIT,
    ensures
        value == fibonacci(n as int),
    decreases n,
{
    if n <= 0 {
        0
    } else if n == 1 {
        1
    } else {
        proof {
            lemma_fibonacci_at_limit();
            lemma_fibonacci_grows(n as int, 46);
            lemma_fibonacci_nonnegative(n - 1);
            lemma_fibonacci_nonnegative(n - 2);
        }
        fibonacci_wasm(n - 1) + fibonacci_wasm(n - 2)
    }
}

} // verus!
