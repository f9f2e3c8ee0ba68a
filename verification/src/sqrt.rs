//! Integer square roots.
//!
//! The speed limiter rescales a velocity by the ratio of a target speed to
//! the current speed, and the current speed is the square root of a squared
//! magnitude. Rounding that root up lets the limiter guarantee that a
//! rescaled velocity never exceeds its target.

use vstd::prelude::*;
use crate::vec2::lemma_mul_bound;

verus! {

/// The integer square root of `n`, rounded down: the largest `r` with
/// `r * r <= n`.
pub open spec fn isqrt(n: nat) -> nat
    decreases n,
{
    if n == 0 {
        0
    } else {
        let r = isqrt((n - 1) as nat);
        if (r + 1) * (r + 1) <= n {
            r + 1
        } else {
            r
        }
    }
}

/// The integer square root of `n`, rounded up: the smallest `r` with
/// `n <= r * r`.
pub open spec fn csqrt(n: nat) -> nat {
    if isqrt(n) * isqrt(n) == n {
        isqrt(n)
    } else {
        isqrt(n) + 1
    }
}

/// `isqrt(n)` squares to at most `n`, and the next integer squares past it.
pub proof fn lemma_isqrt_bounds(n: nat)
    ensures
        isqrt(n) * isqrt(n) <= n,
        n < (isqrt(n) + 1) * (isqrt(n) + 1),
    decreases n,
{
    if n == 0 {
        assert(isqrt(n) == 0);
        assert(n < (isqrt(n) + 1) * (isqrt(n) + 1)) by (nonlinear_arith)
            requires
                n == 0,
                isqrt(n) == 0,
        ;
    } else {
        lemma_isqrt_bounds((n - 1) as nat);
        let r = isqrt((n - 1) as nat);
        if (r + 1) * (r + 1) <= n {
            assert(isqrt(n) == r + 1);
            assert(n <= (r + 1) * (r + 1)) by (nonlinear_arith)
                requires
                    (n - 1) < (r + 1) * (r + 1),
            ;
            assert(n < (isqrt(n) + 1) * (isqrt(n) + 1)) by (nonlinear_arith)
                requires
                    isqrt(n) == r + 1,
                    n == (r + 1) * (r + 1),
            ;
        } else {
            assert(isqrt(n) == r);
            assert(n < (isqrt(n) + 1) * (isqrt(n) + 1)) by (nonlinear_arith)
                requires
                    isqrt(n) == r,
                    n < (r + 1) * (r + 1),
            ;
        }
    }
}

/// Any `r` with `r * r <= n < (r + 1) * (r + 1)` is `isqrt(n)`.
pub proof fn lemma_isqrt_unique(n: nat, r: nat)
    requires
        r * r <= n,
        n < (r + 1) * (r + 1),
    ensures
        r == isqrt(n),
{
    lemma_isqrt_bounds(n);
    let s = isqrt(n);
    assert(r == s) by (nonlinear_arith)
        requires
            r * r <= n,
            n < (r + 1) * (r + 1),
            s * s <= n,
            n < (s + 1) * (s + 1),
    ;
}

/// The rounded-up root squares to at least `n`, and the previous integer
/// squares below it.
pub proof fn lemma_csqrt_bounds(n: nat)
    ensures
        n <= csqrt(n) * csqrt(n),
        n > 0 ==> csqrt(n) >= 1,
        n > 0 ==> (csqrt(n) - 1) * (csqrt(n) - 1) < n,
{
    lemma_isqrt_bounds(n);
    let r = isqrt(n);
    if r * r == n {
        if n > 0 {
            assert(r >= 1) by (nonlinear_arith)
                requires
                    r * r == n,
                    n > 0,
            ;
            assert((r - 1) * (r - 1) < r * r) by (nonlinear_arith)
                requires
                    r >= 1,
            ;
        }
    }
}

/// The integer square root of `n`, rounded down, by bisection.
pub fn isqrt_u128(n: u128) -> (r: u128)
    requires
        n < 0x4000_0000_0000_0000_0000_0000_0000_0000,
    ensures
        r == isqrt(n as nat),
        r * r <= n < (r + 1) * (r + 1),
{
    let mut lo: u128 = 0;
    let mut hi: u128 = 0x8000_0000_0000_0000;
    proof {
        assert(hi * hi > n) by (nonlinear_arith)
            requires
                hi == 0x8000_0000_0000_0000,
                n < 0x4000_0000_0000_0000_0000_0000_0000_0000,
        ;
    }
    while lo + 1 < hi
        invariant
            lo * lo <= n,
            n < hi * hi,
            lo < hi,
            hi <= 0x8000_0000_0000_0000,
        decreases hi - lo,
    {
        let mid = lo + (hi - lo) / 2;
        proof {
            lemma_mul_bound(mid as int, mid as int, 0x8000_0000_0000_0000, 0x8000_0000_0000_0000);
        }
        if mid * mid <= n {
            lo = mid;
        } else {
            hi = mid;
        }
    }
    proof {
        lemma_isqrt_unique(n as nat, lo as nat);
    }
    lo
}

/// The integer square root of `n`, rounded up.
pub fn csqrt_u128(n: u128) -> (r: u128)
    requires
        n < 0x4000_0000_0000_0000_0000_0000_0000_0000,
    ensures
        r == csqrt(n as nat),
        n <= r * r,
{
    let r = isqrt_u128(n);
    proof {
        lemma_csqrt_bounds(n as nat);
        assert(r < 0x8000_0000_0000_0000) by (nonlinear_arith)
            requires
                r * r <= n,
                n < 0x4000_0000_0000_0000_0000_0000_0000_0000,
        ;
    }
    if r * r == n {
        r
    } else {
        r + 1
    }
}

} // verus!
