use vstd::prelude::*;

verus! {

/// The smallest integer that is not below `n / d`, for a positive `d`.
pub open spec fn ceil_div(n: int, d: int) -> int
    recommends
        d > 0,
{
    if n >= 0 {
        (n + d - 1) / d
    } else {
        -((-n) / d)
    }
}

/// The largest integer that is not above `n / 2`.
pub open spec fn floor_half(n: int) -> int {
    if n >= 0 {
        n / 2
    } else {
        -((-n + 1) / 2)
    }
}

/// `v` limited to the range `[-limit, limit]`.
pub open spec fn clamp(v: int, limit: int) -> int {
    if v > limit {
        limit
    } else if v < -limit {
        -limit
    } else {
        v
    }
}

/// `ceil_div` brackets the exact quotient: `n <= d * q < n + d`.
pub proof fn lemma_ceil_div_bounds(n: int, d: int)
    requires
        d > 0,
    ensures
        n <= d * ceil_div(n, d) < n + d,
{
    if n >= 0 {
        let m = n + d - 1;
        vstd::arithmetic::div_mod::lemma_fundamental_div_mod(m, d);
        vstd::arithmetic::div_mod::lemma_mod_bound(m, d);
        assert(m == d * (m / d) + m % d);
        assert(ceil_div(n, d) == m / d);
    } else {
        let m = -n;
        vstd::arithmetic::div_mod::lemma_fundamental_div_mod(m, d);
        vstd::arithmetic::div_mod::lemma_mod_bound(m, d);
        assert(m == d * (m / d) + m % d);
        assert(ceil_div(n, d) == -(m / d));
        assert(d * (-(m / d)) == -(d * (m / d))) by (nonlinear_arith);
    }
}

/// A multiple of `d` is divided exactly.
pub proof fn lemma_ceil_div_exact(q: int, d: int)
    requires
        d > 0,
    ensures
        ceil_div(q * d, d) == q,
{
    lemma_ceil_div_bounds(q * d, d);
    let c = ceil_div(q * d, d);
    assert(q * d <= d * c < q * d + d);
    if c > q {
        assert(d * c >= d * (q + 1)) by (nonlinear_arith)
            requires c >= q + 1, d > 0;
        assert(d * (q + 1) == q * d + d) by (nonlinear_arith);
    }
    if c < q {
        assert(d * c <= d * (q - 1)) by (nonlinear_arith)
            requires c <= q - 1, d > 0;
        assert(d * (q - 1) == q * d - d) by (nonlinear_arith);
    }
}

/// Computes `ceil_div` on machine integers.
pub fn ceil_div_i128(n: i128, d: i128) -> (r: i128)
    requires
        d > 0,
        -0x1_0000_0000_0000_0000_0000 <= n <= 0x1_0000_0000_0000_0000_0000,
        d <= 0x1_0000_0000_0000_0000_0000,
    ensures
        r == ceil_div(n as int, d as int),
{
    if n >= 0 {
        let q: u128 = (n as u128 + d as u128 - 1) / (d as u128);
        q as i128
    } else {
        let q: u128 = ((-n) as u128) / (d as u128);
        -(q as i128)
    }
}

/// Computes `floor_half` on machine integers.
pub fn floor_half_i64(n: i64) -> (r: i64)
    requires
        n > i64::MIN,
    ensures
        r == floor_half(n as int),
{
    if n >= 0 {
        n / 2
    } else {
        let q: u64 = ((-n) as u64 + 1) / 2;
        -(q as i64)
    }
}

} // verus!
