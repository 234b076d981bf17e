//! Integer square root, the vote weight of quadratic voting, and what
//! Newton's method needs to reach it.

use vstd::prelude::*;

verus! {

/// `r` is the integer square root of `n`: the largest number whose square
/// does not exceed `n`.
pub open spec fn is_isqrt(n: nat, r: nat) -> bool {
    r * r <= n && n < (r + 1) * (r + 1)
}

/// The integer square root of `n`, `floor(sqrt(n))`.
pub open spec fn isqrt(n: nat) -> nat {
    choose|r: nat| is_isqrt(n, r)
}

/// Squaring is strictly monotone on the naturals.
proof fn lemma_square_monotone(a: nat, b: nat)
    requires
        a < b,
    ensures
        a * a < b * b,
{
    assert(a * a <= a * b) by (nonlinear_arith)
        requires
            a < b,
    ;
    assert(a * b < b * b) by (nonlinear_arith)
        requires
            a < b,
    ;
}

/// At most one number is the integer square root of `n`.
pub proof fn lemma_isqrt_unique(n: nat, r: nat, s: nat)
    requires
        is_isqrt(n, r),
        is_isqrt(n, s),
    ensures
        r == s,
{
    if r < s {
        lemma_square_monotone(r + 1, s + 1);
        assert((r + 1) * (r + 1) <= s * s) by (nonlinear_arith)
            requires
                r + 1 <= s,
        ;
    }
    if s < r {
        assert((s + 1) * (s + 1) <= r * r) by (nonlinear_arith)
            requires
                s + 1 <= r,
        ;
    }
}

/// Every number has an integer square root, and `isqrt` is it.
pub proof fn lemma_isqrt_exists(n: nat)
    ensures
        is_isqrt(n, isqrt(n)),
    decreases n,
{
    if n == 0 {
        assert(is_isqrt(0, 0)) by (nonlinear_arith);
    } else {
        lemma_isqrt_exists((n - 1) as nat);
        let r = isqrt((n - 1) as nat);
        if n < (r + 1) * (r + 1) {
            assert(is_isqrt(n, r));
        } else {
            assert(n == (r + 1) * (r + 1));
            assert((r + 1) * (r + 1) < (r + 2) * (r + 2)) by (nonlinear_arith);
            assert(is_isqrt(n, r + 1));
        }
    }
}

/// Whoever exhibits an integer square root of `n` knows `isqrt(n)`.
pub proof fn lemma_isqrt_is(n: nat, r: nat)
    requires
        is_isqrt(n, r),
    ensures
        isqrt(n) == r,
{
    lemma_isqrt_unique(n, r, isqrt(n));
}

/// One Newton step from any positive guess lands at or above the root:
/// with `y = (x + n / x) / 2`, the square of `y + 1` exceeds `n`.
pub proof fn lemma_newton_step_stays_above(n: nat, x: nat, y: nat)
    requires
        x >= 1,
        y == (x + n / x) / 2,
    ensures
        n < (y + 1) * (y + 1),
{
    let q = n / x;
    let t = y + 1;
    assert(n < (q + 1) * x) by (nonlinear_arith)
        requires
            x >= 1,
            q == n / x,
    ;
    assert(2 * t >= x + q + 1);
    assert((q + 1) * x <= (2 * t - x) * x) by (nonlinear_arith)
        requires
            q + 1 <= 2 * t - x,
            x >= 1,
    ;
    assert((2 * t - x) * x <= t * t) by (nonlinear_arith);
}

/// A guess that a Newton step does not lower is at or below the root.
pub proof fn lemma_newton_fixpoint_is_below(n: nat, x: nat, y: nat)
    requires
        x >= 1,
        y == (x + n / x) / 2,
        y >= x,
    ensures
        x * x <= n,
{
    let q = n / x;
    assert(q >= x);
    assert(q * x <= n) by (nonlinear_arith)
        requires
            x >= 1,
            q == n / x,
    ;
    assert(x * x <= q * x) by (nonlinear_arith)
        requires
            x <= q,
    ;
}

/// The first guess `n / 2` is at or above the root for `n >= 2`.
pub proof fn lemma_half_is_above(n: nat)
    requires
        n >= 2,
    ensures
        n < (n / 2 + 1) * (n / 2 + 1),
{
    let h = n / 2;
    assert(n <= 2 * h + 1);
    assert(2 * h + 1 < (h + 1) * (h + 1)) by (nonlinear_arith)
        requires
            h >= 1,
    ;
}

/// A guess at or above the root of a 128-bit number, and no larger than
/// half of it, leaves room for the sum of a Newton step.
pub proof fn lemma_newton_sum_fits(n: nat, x: nat)
    requires
        2 <= n <= u128::MAX,
        1 <= x <= n / 2,
        n < (x + 1) * (x + 1),
    ensures
        x + n / x <= u128::MAX,
{
    if x == 1 {
        assert(n < 4) by (nonlinear_arith)
            requires
                x == 1,
                n < (x + 1) * (x + 1),
        ;
        assert(n / 1 == n);
    } else {
        assert(n / x <= n / 2) by (nonlinear_arith)
            requires
                x >= 2,
                n >= 0,
        ;
    }
}

} // verus!
