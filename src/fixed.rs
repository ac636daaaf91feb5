//! Fixed-point arithmetic shared by the simulation.
//!
//! A real quantity `q` (a length, a velocity, a force, a mass, a time in
//! seconds, a fraction) is held as the integer `q * UNIT`, rounded toward
//! zero wherever a division occurs.
use vstd::arithmetic::div_mod::{lemma_div_pos_is_pos, lemma_fundamental_div_mod, lemma_mod_pos_bound};
use vstd::prelude::*;

verus! {

/// Number of fixed-point steps in one whole unit.
pub const UNIT: i64 = 1000;

/// Largest magnitude a coordinate, size or velocity component may take;
/// results beyond it saturate.
pub const COORD_LIMIT: i64 = 100_000_000_000;

/// Integer division rounded toward zero (`b > 0`).
pub open spec fn trunc_div(a: int, b: int) -> int {
    if a >= 0 {
        a / b
    } else {
        -((-a) / b)
    }
}

pub open spec fn abs_int(a: int) -> int {
    if a >= 0 {
        a
    } else {
        -a
    }
}

proof fn lemma_nonneg_div(x: int, b: int)
    requires
        x >= 0,
        b >= 1,
    ensures
        0 <= x / b <= x,
        (x / b) * b <= x,
{
    lemma_fundamental_div_mod(x, b);
    lemma_mod_pos_bound(x, b);
    lemma_div_pos_is_pos(x, b);
    let q = x / b;
    assert(q * b == b * q) by (nonlinear_arith);
    assert(q <= q * b) by (nonlinear_arith)
        requires
            q >= 0,
            b >= 1,
    ;
}

/// Rounding toward zero keeps the sign, never grows the magnitude, and
/// leaves a quotient whose multiple does not exceed the dividend.
pub proof fn lemma_trunc_div(a: int, b: int)
    requires
        b >= 1,
    ensures
        a >= 0 ==> 0 <= trunc_div(a, b) <= a,
        a <= 0 ==> a <= trunc_div(a, b) <= 0,
        abs_int(trunc_div(a, b)) * b <= abs_int(a),
{
    lemma_nonneg_div(abs_int(a), b);
    if a < 0 {
        assert((-a) / b == abs_int(a) / b);
    }
}

/// A dividend at most `k` times the divisor gives a quotient of magnitude at
/// most `k`.
pub proof fn lemma_trunc_div_bounded(a: int, b: int, k: int)
    requires
        b >= 1,
        k >= 0,
        abs_int(a) <= k * b,
    ensures
        abs_int(trunc_div(a, b)) <= k,
{
    lemma_trunc_div(a, b);
    let q = abs_int(trunc_div(a, b));
    assert(q <= k) by (nonlinear_arith)
        requires
            q * b <= k * b,
            b >= 1,
    ;
}

/// `v` saturated into `[-COORD_LIMIT, COORD_LIMIT]`.
pub open spec fn clamp_coord(v: int) -> int {
    if v > COORD_LIMIT {
        COORD_LIMIT as int
    } else if v < -COORD_LIMIT {
        -COORD_LIMIT
    } else {
        v
    }
}

pub open spec fn in_coord_range(v: int) -> bool {
    -COORD_LIMIT <= v <= COORD_LIMIT
}

/// The least natural number whose square is at least `n`.
pub open spec fn ceil_sqrt(n: nat) -> nat
    decreases n,
{
    if n == 0 {
        0
    } else {
        let s = ceil_sqrt((n - 1) as nat);
        if s * s >= n {
            s
        } else {
            s + 1
        }
    }
}

pub open spec fn is_ceil_sqrt(s: int, n: int) -> bool {
    s >= 1 && s * s >= n && (s - 1) * (s - 1) < n
}

/// The ceiling square root of a positive `n` has its defining property.
pub proof fn lemma_ceil_sqrt_holds(n: nat)
    requires
        n >= 1,
    ensures
        is_ceil_sqrt(ceil_sqrt(n) as int, n as int),
    decreases n,
{
    if n == 1 {
        assert(ceil_sqrt(0) == 0);
        assert(ceil_sqrt(1) == 1);
    } else {
        lemma_ceil_sqrt_holds((n - 1) as nat);
        let s = ceil_sqrt((n - 1) as nat) as int;
        if s * s < n {
            assert(s * s == n - 1);
            assert((s + 1) * (s + 1) == s * s + 2 * s + 1) by (nonlinear_arith);
        }
    }
}

proof fn lemma_square_monotone(a: int, b: int)
    requires
        0 <= a <= b,
    ensures
        a * a <= b * b,
{
    assert(a * a <= a * b) by (nonlinear_arith)
        requires
            0 <= a <= b,
    ;
    assert(a * b <= b * b) by (nonlinear_arith)
        requires
            0 <= a <= b,
    ;
}

/// The ceiling square root is the only value with its defining property.
pub proof fn lemma_ceil_sqrt_unique(s: int, n: int)
    requires
        n >= 1,
        is_ceil_sqrt(s, n),
    ensures
        s == ceil_sqrt(n as nat),
{
    lemma_ceil_sqrt_holds(n as nat);
    let t = ceil_sqrt(n as nat) as int;
    if s < t {
        lemma_square_monotone(s, t - 1);
    } else if t < s {
        lemma_square_monotone(t, s - 1);
    }
}

/// `v` saturated into the coordinate range.
pub fn clamp_to_coord(v: i128) -> (r: i64)
    ensures
        r == clamp_coord(v as int),
        in_coord_range(r as int),
{
    if v > COORD_LIMIT as i128 {
        COORD_LIMIT
    } else if v < -(COORD_LIMIT as i128) {
        -COORD_LIMIT
    } else {
        v as i64
    }
}

/// `a / b` rounded toward zero.
pub fn div_toward_zero(a: i128, b: i128) -> (r: i128)
    requires
        b > 0,
        a > i128::MIN,
    ensures
        r == trunc_div(a as int, b as int),
{
    if a >= 0 {
        a / b
    } else {
        let q = (-a) / b;
        -q
    }
}

/// The least `s` with `s * s >= n`, for `n >= 1`.
pub fn ceil_sqrt_u128(n: u128) -> (s: u128)
    requires
        n >= 1,
        n <= 0x8000_0000_0000_0000_0000_0000_0000_0000u128,
    ensures
        s == ceil_sqrt(n as nat),
        1 <= s <= u64::MAX,
{
    let mut lo: u128 = 0;
    let mut hi: u128 = u64::MAX as u128;
    proof {
        assert(hi * hi >= n) by (nonlinear_arith)
            requires
                hi == 0xffff_ffff_ffff_ffffu128,
                n <= 0x8000_0000_0000_0000_0000_0000_0000_0000u128,
        ;
    }
    while hi - lo > 1
        invariant
            lo < hi <= u64::MAX,
            lo * lo < n,
            hi * hi >= n,
        decreases hi - lo,
    {
        let mid = lo + (hi - lo) / 2;
        proof {
            lemma_square_monotone(mid as int, u64::MAX as int);
            assert((u64::MAX as int) * (u64::MAX as int) < 0x1_0000_0000_0000_0000_0000_0000_0000_0000int)
                by (nonlinear_arith);
        }
        if mid * mid >= n {
            hi = mid;
        } else {
            lo = mid;
        }
    }
    proof {
        assert(hi - 1 == lo);
        lemma_ceil_sqrt_unique(hi as int, n as int);
    }
    hi
}

} // verus!
