//! Small arithmetic helpers: addition, multiplication, ordering a pair,
//! factorial, and squaring.

use vstd::prelude::*;

verus! {

/// The mathematical factorial, the reference for [`factorial`].
pub open spec fn fact(n: nat) -> nat
    decreases n,
{
    if n == 0 {
        1
    } else {
        n * fact((n - 1) as nat)
    }
}

/// Factorial never shrinks as its argument grows.
proof fn lemma_fact_mono(i: nat, j: nat)
    requires
        i <= j,
    ensures
        fact(i) <= fact(j),
    decreases j,
{
    if i < j {
        lemma_fact_mono(i, (j - 1) as nat);
        assert(j * fact((j - 1) as nat) >= 1 * fact((j - 1) as nat)) by (nonlinear_arith)
            requires
                j >= 1,
        ;
    }
}

/// Sum of two unsigned integers; the caller must rule out overflow.
pub fn add_two_nums(a: u32, b: u32) -> (r: u32)
    requires
        a + b <= u32::MAX,
    ensures
        r == a + b,
{
    a + b
}

/// Product of two signed integers; the caller must rule out overflow.
pub fn multiply(a: i32, b: i32) -> (r: i32)
    requires
        i32::MIN <= a * b <= i32::MAX,
    ensures
        r == a * b,
{
    a * b
}

/// Orders a pair: returns `(smaller, larger)`, which is exactly the two
/// arguments rearranged.
pub fn min_max(a: i32, b: i32) -> (r: (i32, i32))
    ensures
        r.0 <= r.1,
        (r.0 == a && r.1 == b) || (r.0 == b && r.1 == a),
{
    if a <= b {
        (a, b)
    } else {
        (b, a)
    }
}

/// `n!` for `n <= 12`; `13!` no longer fits in a `u32`.
pub fn factorial(n: u32) -> (r: u32)
    requires
        n <= 12,
    ensures
        r == fact(n as nat),
    decreases n,
{
    if n == 0 {
        1
    } else {
        let prev = factorial(n - 1);
        proof {
            lemma_fact_mono(n as nat, 12);
            assert(fact(12) == 479001600) by {
                reveal_with_fuel(fact, 13);
            }
        }
        n * prev
    }
}

/// The square of `x`; the caller must rule out overflow.
pub fn square(x: i32) -> (r: i32)
    requires
        x * x <= i32::MAX,
    ensures
        r == x * x,
{
    proof {
        assert(x * x >= 0) by (nonlinear_arith);
    }
    x * x
}

/// The square of four, kept as a named constant.
pub const SQUARED_VALUE_OF_FOUR: i32 = 16;

} // verus!
