//! Small functions on whole numbers.

use vstd::prelude::*;

verus! {

/// The number five.
pub fn five() -> (five: i32)
    ensures
        five == 5,
{
    5
}

/// `x` and one more, for an `x` below the largest `i32`.
pub fn plus_one(x: i32) -> (next: i32)
    requires
        x < i32::MAX,
    ensures
        next == x + 1,
{
    x + 1
}

/// `a` and two more, for an `a` at least two below the largest `i32`.
pub fn add_two(a: i32) -> (sum: i32)
    requires
        a <= i32::MAX - 2,
    ensures
        sum == a + 2,
{
    a + 2
}

/// The Fibonacci numbers: 0, 1, and from there on each the sum of the two
/// before it.
pub open spec fn fibonacci(n: nat) -> nat
    decreases n,
{
    if n == 0 {
        0
    } else if n == 1 {
        1
    } else {
        fibonacci((n - 1) as nat) + fibonacci((n - 2) as nat)
    }
}

/// The largest `n` whose Fibonacci number fits in `i32`.
pub const LARGEST_FIBONACCI_INDEX: i32 = 46;

/// The Fibonacci numbers do not fall from 1 on.
pub proof fn lemma_fibonacci_grows(i: nat, j: nat)
    requires
        i <= j,
    ensures
        fibonacci(i) <= fibonacci(j),
    decreases j,
{
    if i < j {
        if j >= 2 {
            lemma_fibonacci_grows(i, (j - 1) as nat);
        }
    }
}

/// The Fibonacci number of 46, which fits in `i32`, reached one step at a
/// time.
pub proof fn lemma_fibonacci_46()
    ensures
        fibonacci(46) == 1836311903,
{
    assert(fibonacci(0) == 0);
    assert(fibonacci(1) == 1);
    assert(fibonacci(2) == 1);
    assert(fibonacci(3) == 2);
    assert(fibonacci(4) == 3);
    assert(fibonacci(5) == 5);
    assert(fibonacci(6) == 8);
    assert(fibonacci(7) == 13);
    assert(fibonacci(8) == 21);
    assert(fibonacci(9) == 34);
    assert(fibonacci(10) == 55);
    assert(fibonacci(11) == 89);
    assert(fibonacci(12) == 144);
    assert(fibonacci(13) == 233);
    assert(fibonacci(14) == 377);
    assert(fibonacci(15) == 610);
    assert(fibonacci(16) == 987);
    assert(fibonacci(17) == 1597);
    assert(fibonacci(18) == 2584);
    assert(fibonacci(19) == 4181);
    assert(fibonacci(20) == 6765);
    assert(fibonacci(21) == 10946);
    assert(fibonacci(22) == 17711);
    assert(fibonacci(23) == 28657);
    assert(fibonacci(24) == 46368);
    assert(fibonacci(25) == 75025);
    assert(fibonacci(26) == 121393);
    assert(fibonacci(27) == 196418);
    assert(fibonacci(28) == 317811);
    assert(fibonacci(29) == 514229);
    assert(fibonacci(30) == 832040);
    assert(fibonacci(31) == 1346269);
    assert(fibonacci(32) == 2178309);
    assert(fibonacci(33) == 3524578);
    assert(fibonacci(34) == 5702887);
    assert(fibonacci(35) == 9227465);
    assert(fibonacci(36) == 14930352);
    assert(fibonacci(37) == 24157817);
    assert(fibonacci(38) == 39088169);
    assert(fibonacci(39) == 63245986);
    assert(fibonacci(40) == 102334155);
    assert(fibonacci(41) == 165580141);
    assert(fibonacci(42) == 267914296);
    assert(fibonacci(43) == 433494437);
    assert(fibonacci(44) == 701408733);
    assert(fibonacci(45) == 1134903170);
    assert(fibonacci(46) == 1836311903);
}

/// The `n`th Fibonacci number, where 1 and 1 are the first two; for an `n`
/// below 1 the first. `n` is at most 46: the next one does not fit in `i32`.
pub fn nth_fibonacci(n: i32) -> (nth: i32)
    requires
        n <= LARGEST_FIBONACCI_INDEX,
    ensures
        nth == if n < 1 {
            1
        } else {
            fibonacci(n as nat)
        },
{
    let mut nfib: i32 = 1;
    let mut nfib_last: i32 = 0;
    let mut step: i32 = 1;
    while step < n
        invariant
            step == 1 || 1 < step <= n,
            n <= LARGEST_FIBONACCI_INDEX,
            nfib == fibonacci(step as nat),
            nfib_last == fibonacci((step - 1) as nat),
        decreases n - step,
    {
        proof {
            lemma_fibonacci_grows((step + 1) as nat, 46);
            lemma_fibonacci_46();
        }
        let nfib_temp = nfib;
        nfib = nfib + nfib_last;
        nfib_last = nfib_temp;
        step = step + 1;
    }
    nfib
}

} // verus!
