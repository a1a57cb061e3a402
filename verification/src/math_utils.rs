//! Small arithmetic helpers: parity tests and a factorial.

use vstd::prelude::*;

verus! {

/// The mathematical factorial of `n`.
pub open spec fn spec_factorial(n: nat) -> nat
    decreases n,
{
    if n == 0 {
        1
    } else {
        n * spec_factorial((n - 1) as nat)
    }
}

/// Checks if a number is even.
pub fn is_even(num: i32) -> (r: bool)
    ensures
        r == (num as int % 2 == 0),
{
    num % 2 == 0
}

/// Checks if a number is odd.
pub fn is_odd(num: i32) -> (r: bool)
    ensures
        r == (num as int % 2 != 0),
{
    num % 2 != 0
}

/// The factorial never shrinks as its argument grows.
proof fn lemma_factorial_monotonic(i: nat, j: nat)
    requires
        i <= j,
    ensures
        spec_factorial(i) <= spec_factorial(j),
    decreases j,
{
    if i < j {
        lemma_factorial_monotonic(i, (j - 1) as nat);
        assert(spec_factorial(j) == j * spec_factorial((j - 1) as nat));
        assert(spec_factorial((j - 1) as nat) <= j * spec_factorial((j - 1) as nat))
            by (nonlinear_arith)
            requires j >= 1;
    }
}

/// The largest factorial that fits in a `u32` is that of 12.
proof fn lemma_factorial_12_value()
    ensures
        spec_factorial(12) == 479001600,
{
    assert(spec_factorial(0) == 1);
    assert(spec_factorial(1) == 1);
    assert(spec_factorial(2) == 2);
    assert(spec_factorial(3) == 6);
    assert(spec_factorial(4) == 24);
    assert(spec_factorial(5) == 120);
    assert(spec_factorial(6) == 720);
    assert(spec_factorial(7) == 5040);
    assert(spec_factorial(8) == 40320);
    assert(spec_factorial(9) == 362880);
    assert(spec_factorial(10) == 3628800);
    assert(spec_factorial(11) == 39916800);
    assert(spec_factorial(12) == 479001600);
}

/// Calculates the factorial of a number.
///
/// Arguments above 12 are excluded: their factorial does not fit in a `u32`.
pub fn factorial(num: u32) -> (r: u32)
    requires
        num <= 12,
    ensures
        r == spec_factorial(num as nat),
    decreases num,
{
    if num == 0 {
        1
    } else {
        let rest = factorial(num - 1);
        proof {
            lemma_factorial_monotonic(num as nat, 12);
            lemma_factorial_12_value();
        }
        num * rest
    }
}

} // verus!
