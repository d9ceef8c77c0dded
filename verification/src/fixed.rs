//! Fixed-point arithmetic: the number representation every other module
//! computes with, together with the truncated-division and square-root
//! helpers and the lemmas that describe their rounding.

use vstd::prelude::*;
use vstd::arithmetic::div_mod::{
    lemma_div_of0, lemma_fundamental_div_mod, lemma_remainder_lower, lemma_remainder_upper,
};

verus! {

/// Fixed-point units per scene unit: positions, velocities, zoom factors
/// and field strengths are `i64` multiples of `1 / SCALE`.
pub const SCALE: i64 = 65536;

/// Largest magnitude kept in a fixed-point coordinate or velocity
/// (`2^40` units, about sixteen million scene units).  Arithmetic whose
/// result would leave this range saturates to it.
pub const FX_LIMIT: i64 = 1099511627776;

/// Round-toward-zero division, the rounding the executable arithmetic
/// applies.  On `int`, `/` is Euclidean and differs on negative
/// dividends, so the truncated form is spelled out once here.
pub open spec fn tdiv(n: int, d: int) -> int {
    if n >= 0 {
        n / d
    } else {
        -((-n) / d)
    }
}

/// `n` clamped into `[lo, hi]`.
pub open spec fn clip(n: int, lo: int, hi: int) -> int {
    if n < lo {
        lo
    } else if n > hi {
        hi
    } else {
        n
    }
}

/// The floor of the square root of `n`, built up one candidate at a time.
pub open spec fn sqrt_floor(n: nat) -> nat
    decreases n,
{
    if n == 0 {
        0
    } else {
        let r = sqrt_floor((n - 1) as nat);
        if (r + 1) * (r + 1) <= n {
            r + 1
        } else {
            r
        }
    }
}

/// `sqrt_floor` is exactly the integer square root: the largest integer
/// whose square does not exceed `n`.
pub proof fn lemma_sqrt_floor(n: nat)
    ensures
        sqrt_floor(n) * sqrt_floor(n) <= n,
        n < (sqrt_floor(n) + 1) * (sqrt_floor(n) + 1),
    decreases n,
{
    if n > 0 {
        lemma_sqrt_floor((n - 1) as nat);
        let r = sqrt_floor((n - 1) as nat);
        if (r + 1) * (r + 1) <= n {
            assert(sqrt_floor(n) == r + 1);
            assert(n < (r + 2) * (r + 2)) by (nonlinear_arith)
                requires
                    n - 1 < (r + 1) * (r + 1);
            assert(n < (sqrt_floor(n) + 1) * (sqrt_floor(n) + 1)) by (nonlinear_arith)
                requires
                    sqrt_floor(n) == r + 1,
                    n < (r + 2) * (r + 2);
        } else {
            assert(sqrt_floor(n) == r);
        }
    } else {
        assert(sqrt_floor(n) == 0);
        assert(n < (sqrt_floor(n) + 1) * (sqrt_floor(n) + 1)) by (nonlinear_arith)
            requires
                sqrt_floor(n) == 0,
                n == 0;
    }
}

/// Any integer bracketed by its own square and the next square is the
/// integer square root.
pub proof fn lemma_sqrt_floor_unique(n: nat, r: nat)
    requires
        r * r <= n,
        n < (r + 1) * (r + 1),
    ensures
        r == sqrt_floor(n),
{
    lemma_sqrt_floor(n);
    let s = sqrt_floor(n);
    assert(r == s) by (nonlinear_arith)
        requires
            r * r <= n,
            n < (r + 1) * (r + 1),
            s * s <= n,
            n < (s + 1) * (s + 1);
}

/// A truncated quotient times the divisor lands within one divisor of
/// the dividend, on the dividend's side of zero.
pub proof fn lemma_tdiv_close(n: int, d: int)
    requires
        0 < d,
    ensures
        n >= 0 ==> tdiv(n, d) * d <= n < tdiv(n, d) * d + d,
        n <= 0 ==> tdiv(n, d) * d - d < n <= tdiv(n, d) * d,
{
    if n == 0 {
        lemma_div_of0(d);
        assert(0int * d == 0) by (nonlinear_arith);
    } else if n > 0 {
        lemma_fundamental_div_mod(n, d);
        lemma_remainder_lower(n, d);
        lemma_remainder_upper(n, d);
        assert((n / d) * d == d * (n / d)) by (nonlinear_arith);
    } else {
        lemma_fundamental_div_mod(-n, d);
        lemma_remainder_lower(-n, d);
        lemma_remainder_upper(-n, d);
        let q = (-n) / d;
        let r = (-n) % d;
        assert(-n == d * q + r);
        assert(tdiv(n, d) == -q);
        assert((-q) * d == -(d * q)) by (nonlinear_arith);
    }
}

/// Truncated division is an odd function of the dividend.
pub proof fn lemma_tdiv_neg(n: int, d: int)
    requires
        0 < d,
    ensures
        tdiv(-n, d) == -tdiv(n, d),
{
}

/// A truncated quotient never exceeds the dividend in magnitude and
/// keeps its sign.
pub proof fn lemma_tdiv_mag(n: int, d: int)
    requires
        0 < d,
    ensures
        n >= 0 ==> 0 <= tdiv(n, d) <= n,
        n <= 0 ==> n <= tdiv(n, d) <= 0,
{
    let m = if n >= 0 { n } else { -n };
    lemma_fundamental_div_mod(m, d);
    lemma_remainder_lower(m, d);
    assert(m / d <= m) by (nonlinear_arith)
        requires
            m >= 0,
            d >= 1,
            d * (m / d) + m % d == m,
            0 <= m % d,
            0 <= m / d;
}

/// Round-toward-zero division on machine integers.
pub fn div_trunc(n: i128, d: i128) -> (q: i128)
    requires
        0 < d,
        i128::MIN < n,
    ensures
        q == tdiv(n as int, d as int),
{
    proof {
        lemma_tdiv_mag(n as int, d as int);
    }
    if n >= 0 {
        let q: u128 = (n as u128) / (d as u128);
        q as i128
    } else {
        let m: i128 = -n;
        let q: u128 = (m as u128) / (d as u128);
        -(q as i128)
    }
}

/// Saturates an intermediate result into the fixed-point coordinate
/// range.
pub fn sat_fx(n: i128) -> (r: i64)
    ensures
        r == clip(n as int, -FX_LIMIT as int, FX_LIMIT as int),
{
    let lo: i128 = -(FX_LIMIT as i128);
    let hi: i128 = FX_LIMIT as i128;
    if n < lo {
        -FX_LIMIT
    } else if n > hi {
        FX_LIMIT
    } else {
        n as i64
    }
}

/// The integer square root, by binary search on the root.
pub fn isqrt(n: u128) -> (r: u64)
    ensures
        r == sqrt_floor(n as nat),
        r * r <= n,
        n < (r + 1) * (r + 1),
{
    let mut lo: u64 = 0;
    let mut hi: u64 = u64::MAX;
    proof {
        assert((hi + 1) * (hi + 1) > u128::MAX) by (nonlinear_arith)
            requires
                hi == u64::MAX;
    }
    while lo < hi
        invariant
            lo * lo <= n,
            n < (hi + 1) * (hi + 1),
            lo <= hi,
        decreases hi - lo,
    {
        let gap: u64 = hi - lo;
        proof {
            assert(gap / 2 < gap) by (nonlinear_arith)
                requires
                    gap >= 1;
        }
        let mid: u64 = hi - gap / 2;
        proof {
            assert(mid * mid <= u128::MAX) by (nonlinear_arith)
                requires
                    mid <= u64::MAX;
        }
        let sq: u128 = (mid as u128) * (mid as u128);
        if sq <= n {
            lo = mid;
        } else {
            hi = mid - 1;
        }
    }
    proof {
        lemma_sqrt_floor_unique(n as nat, lo as nat);
    }
    lo
}

} // verus!
