//! Checked arithmetic between balances and the integer square root that
//! turns reserved tokens into vote weight.
use vstd::prelude::*;

use crate::types::Balance;

verus! {

/// The largest `r` with `r * r <= n` (0 for negative `n`).
pub open spec fn floor_sqrt(n: int) -> nat
    decreases n,
{
    if n <= 0 {
        0
    } else {
        let r = floor_sqrt(n - 1);
        if (r + 1) * (r + 1) <= n {
            (r + 1) as nat
        } else {
            r
        }
    }
}

/// `floor_sqrt(n)` squared does not exceed `n`, and its successor squared does.
pub proof fn lemma_floor_sqrt_bounds(n: int)
    requires
        n >= 0,
    ensures
        floor_sqrt(n) * floor_sqrt(n) <= n,
        n < (floor_sqrt(n) + 1) * (floor_sqrt(n) + 1),
    decreases n,
{
    if n > 0 {
        lemma_floor_sqrt_bounds(n - 1);
        let r = floor_sqrt(n - 1) as int;
        if (r + 1) * (r + 1) <= n {
            assert(floor_sqrt(n) == r + 1);
            assert(n < (r + 2) * (r + 2)) by (nonlinear_arith)
                requires
                    n - 1 < (r + 1) * (r + 1),
                    r >= 0,
            ;
            assert((floor_sqrt(n) + 1) * (floor_sqrt(n) + 1) == (r + 2) * (r + 2));
        } else {
            assert(floor_sqrt(n) == r);
            assert(r * r <= n);
            assert((floor_sqrt(n) + 1) * (floor_sqrt(n) + 1) == (r + 1) * (r + 1));
        }
    } else {
        assert(floor_sqrt(n) == 0);
        let s = floor_sqrt(n) as int;
        assert((s + 1) * (s + 1) == 1) by (nonlinear_arith)
            requires
                s == 0,
        ;
    }
}

/// The bounds `r * r <= n < (r + 1) * (r + 1)` determine `r`.
pub proof fn lemma_floor_sqrt_unique(n: int, r: int)
    requires
        0 <= r,
        r * r <= n,
        n < (r + 1) * (r + 1),
    ensures
        r == floor_sqrt(n),
{
    lemma_floor_sqrt_bounds(n);
    let s = floor_sqrt(n) as int;
    if r < s {
        assert((r + 1) * (r + 1) <= s * s) by (nonlinear_arith)
            requires
                0 <= r < s,
        ;
    } else if s < r {
        assert((s + 1) * (s + 1) <= r * r) by (nonlinear_arith)
            requires
                0 <= s < r,
        ;
    }
}

/// The square root never exceeds its argument.
pub proof fn lemma_floor_sqrt_le(n: int)
    requires
        n >= 0,
    ensures
        floor_sqrt(n) <= n,
{
    lemma_floor_sqrt_bounds(n);
    let s = floor_sqrt(n) as int;
    if s > n {
        assert(s * s > n) by (nonlinear_arith)
            requires
                s > n,
                n >= 0,
        ;
    }
}

/// Relies on `integer_sqrt::IntegerSquareRoot::integer_sqrt` on `u64`: the
/// floor of the square root, which for an unsigned type never panics.
#[verifier::external_body]
fn integer_sqrt_u64(n: u64) -> (r: u64)
    ensures
        r * r <= n,
        n < (r + 1) * (r + 1),
{
    integer_sqrt::IntegerSquareRoot::integer_sqrt(&n)
}

/// Quadratic vote weight of `amount` reserved tokens: `floor(sqrt(amount))`.
pub fn vote_weight(amount: Balance) -> (r: Balance)
    ensures
        r == floor_sqrt(amount as int),
        r <= amount,
{
    let r = integer_sqrt_u64(amount);
    proof {
        lemma_floor_sqrt_unique(amount as int, r as int);
        lemma_floor_sqrt_le(amount as int);
    }
    r
}

} // verus!
