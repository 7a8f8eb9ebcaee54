//! Small integer helpers the engine is built on: division that truncates
//! toward zero (the engine's rounding policy for all force computations),
//! clamping, and integer square root.

use vstd::prelude::*;

verus! {

/// Quotient of `a / d` truncated toward zero, for a positive divisor.
/// This is the rounding the engine uses everywhere: it never increases a
/// magnitude and never flips a sign.
pub open spec fn tz_div(a: int, d: int) -> int {
    if a >= 0 {
        a / d
    } else {
        -((-a) / d)
    }
}

/// `v` clamped into `[lo, hi]`.
pub open spec fn spec_clamp(v: int, lo: int, hi: int) -> int {
    if v < lo {
        lo
    } else if v > hi {
        hi
    } else {
        v
    }
}

/// The smaller of two integers.
pub open spec fn spec_min(a: int, b: int) -> int {
    if a <= b {
        a
    } else {
        b
    }
}

/// Absolute value.
pub open spec fn abs(a: int) -> int {
    if a >= 0 {
        a
    } else {
        -a
    }
}

/// Truncation toward zero never increases a magnitude and keeps the sign.
pub proof fn lemma_tz_div_bounds(a: int, d: int)
    requires
        d > 0,
    ensures
        abs(tz_div(a, d)) * d <= abs(a),
        abs(tz_div(a, d)) <= abs(a),
        a >= 0 ==> tz_div(a, d) >= 0,
        a <= 0 ==> tz_div(a, d) <= 0,
{
    if a >= 0 {
        vstd::arithmetic::div_mod::lemma_fundamental_div_mod(a, d);
        vstd::arithmetic::div_mod::lemma_mod_bound(a, d);
        assert(a / d >= 0 && a / d * d <= a && a / d <= a) by (nonlinear_arith)
            requires
                d > 0,
                a >= 0,
                a == d * (a / d) + a % d,
                a % d >= 0,
        ;
    } else {
        vstd::arithmetic::div_mod::lemma_fundamental_div_mod(-a, d);
        vstd::arithmetic::div_mod::lemma_mod_bound(-a, d);
        assert((-a) / d >= 0 && (-a) / d * d <= -a && (-a) / d <= -a) by (nonlinear_arith)
            requires
                d > 0,
                a < 0,
                -a == d * ((-a) / d) + (-a) % d,
                (-a) % d >= 0,
        ;
    }
}

/// If the numerator's magnitude is at most `c * d`, the truncated quotient's
/// magnitude is at most `c`.
pub proof fn lemma_tz_div_le(a: int, d: int, c: int)
    requires
        d > 0,
        c >= 0,
        abs(a) <= c * d,
    ensures
        abs(tz_div(a, d)) <= c,
{
    lemma_tz_div_bounds(a, d);
    if abs(tz_div(a, d)) > c {
        assert(abs(tz_div(a, d)) * d >= (c + 1) * d) by (nonlinear_arith)
            requires
                d > 0,
                abs(tz_div(a, d)) >= c + 1,
        ;
        assert((c + 1) * d > c * d) by (nonlinear_arith)
            requires
                d > 0,
        ;
    }
}

/// Truncation toward zero, characterized exactly: the magnitude is the
/// Euclidean quotient of the magnitudes, and the sign follows the numerator.
pub proof fn lemma_tz_abs(a: int, d: int)
    requires
        d > 0,
    ensures
        abs(tz_div(a, d)) == abs(a) / d,
        a >= 0 ==> tz_div(a, d) >= 0,
        a <= 0 ==> tz_div(a, d) <= 0,
{
    lemma_tz_div_bounds(a, d);
}

/// Division of `a` by a positive `d`, truncating toward zero.
pub fn div_tz(a: i64, d: i64) -> (r: i64)
    requires
        d > 0,
        a > i64::MIN,
    ensures
        r == tz_div(a as int, d as int),
        abs(r as int) <= abs(a as int),
{
    proof {
        lemma_tz_div_bounds(a as int, d as int);
    }
    if a >= 0 {
        let q: u64 = (a as u64) / (d as u64);
        q as i64
    } else {
        let q: u64 = ((-a) as u64) / (d as u64);
        -(q as i64)
    }
}

/// `v` clamped into `[lo, hi]`.
pub fn clamp_i64(v: i64, lo: i64, hi: i64) -> (r: i64)
    requires
        lo <= hi,
    ensures
        r == spec_clamp(v as int, lo as int, hi as int),
{
    if v < lo {
        lo
    } else if v > hi {
        hi
    } else {
        v
    }
}

/// The integer square root: the largest `r` with `r * r <= x`.
pub open spec fn isqrt_spec(x: nat) -> nat
    decreases x,
{
    if x == 0 {
        0
    } else {
        let s = isqrt_spec((x - 1) as nat);
        if (s + 1) * (s + 1) <= x {
            s + 1
        } else {
            s
        }
    }
}

pub proof fn lemma_isqrt_bounds(x: nat)
    ensures
        isqrt_spec(x) * isqrt_spec(x) <= x,
        x < (isqrt_spec(x) + 1) * (isqrt_spec(x) + 1),
    decreases x,
{
    let r = isqrt_spec(x);
    if x == 0 {
        assert(r == 0);
        assert((r + 1) * (r + 1) == 1nat * 1nat);
    } else {
        let s = isqrt_spec((x - 1) as nat);
        lemma_isqrt_bounds((x - 1) as nat);
        if (s + 1) * (s + 1) <= x {
            assert(r == s + 1);
            assert(r * r == (s + 1) * (s + 1));
            assert((r + 1) * (r + 1) == (s + 2) * (s + 2));
            assert(x < (s + 2) * (s + 2)) by (nonlinear_arith)
                requires
                    x - 1 < (s + 1) * (s + 1),
                    s >= 0,
            ;
        } else {
            assert(r == s);
            assert(r * r == s * s);
            assert((r + 1) * (r + 1) == (s + 1) * (s + 1));
        }
    }
}

/// Two integers that both satisfy the square-root bounds are equal.
pub proof fn lemma_isqrt_unique(x: nat, a: nat, b: nat)
    requires
        a * a <= x < (a + 1) * (a + 1),
        b * b <= x < (b + 1) * (b + 1),
    ensures
        a == b,
{
    assert(a == b) by (nonlinear_arith)
        requires
            a * a <= x < (a + 1) * (a + 1),
            b * b <= x < (b + 1) * (b + 1),
    ;
}

/// `b` to the power `e`.
pub open spec fn pow_spec(b: nat, e: nat) -> nat
    decreases e,
{
    if e == 0 {
        1
    } else {
        b * pow_spec(b, (e - 1) as nat)
    }
}

/// Raising a larger base to the same power gives a result at least as large.
pub proof fn lemma_pow_base_le(a: nat, b: nat, e: nat)
    requires
        a <= b,
    ensures
        pow_spec(a, e) <= pow_spec(b, e),
    decreases e,
{
    if e > 0 {
        lemma_pow_base_le(a, b, (e - 1) as nat);
        assert(a * pow_spec(a, (e - 1) as nat) <= b * pow_spec(b, (e - 1) as nat))
            by (nonlinear_arith)
            requires
                a <= b,
                pow_spec(a, (e - 1) as nat) <= pow_spec(b, (e - 1) as nat),
        ;
    }
}

/// Raising a strictly larger base to a positive power gives a strictly
/// larger result.
pub proof fn lemma_pow_base_lt(a: nat, b: nat, e: nat)
    requires
        a < b,
        e >= 1,
    ensures
        pow_spec(a, e) < pow_spec(b, e),
    decreases e,
{
    lemma_pow_pos(b, (e - 1) as nat);
    lemma_pow_base_le(a, b, (e - 1) as nat);
    assert(a * pow_spec(a, (e - 1) as nat) < b * pow_spec(b, (e - 1) as nat))
        by (nonlinear_arith)
        requires
            a < b,
            pow_spec(a, (e - 1) as nat) <= pow_spec(b, (e - 1) as nat),
            pow_spec(b, (e - 1) as nat) >= 1,
    ;
}

/// A positive base raised to any power stays positive.
pub proof fn lemma_pow_pos(b: nat, e: nat)
    requires
        b >= 1,
    ensures
        pow_spec(b, e) >= 1,
    decreases e,
{
    if e > 0 {
        lemma_pow_pos(b, (e - 1) as nat);
        assert(b * pow_spec(b, (e - 1) as nat) >= 1) by (nonlinear_arith)
            requires
                b >= 1,
                pow_spec(b, (e - 1) as nat) >= 1,
        ;
    }
}

/// `b` to the power `e`, for small enough results.
pub fn pow_u128(b: u128, e: u32) -> (r: u128)
    requires
        b >= 1,
        pow_spec(b as nat, e as nat) <= u128::MAX,
    ensures
        r == pow_spec(b as nat, e as nat),
{
    let mut r: u128 = 1;
    let mut i: u32 = 0;
    while i < e
        invariant
            i <= e,
            b >= 1,
            pow_spec(b as nat, e as nat) <= u128::MAX,
            r == pow_spec(b as nat, i as nat),
        decreases e - i,
    {
        proof {
            lemma_pow_le_e(b as nat, (i + 1) as nat, e as nat);
            assert(pow_spec(b as nat, (i + 1) as nat) == b * pow_spec(b as nat, i as nat));
        }
        r = r * b;
        i = i + 1;
        proof {
            assert(r == b * pow_spec(b as nat, (i - 1) as nat));
        }
    }
    r
}

/// With a positive base, raising to a higher power gives a result at least
/// as large.
pub proof fn lemma_pow_le_e(b: nat, i: nat, e: nat)
    requires
        b >= 1,
        i <= e,
    ensures
        pow_spec(b, i) <= pow_spec(b, e),
    decreases e,
{
    if i < e {
        lemma_pow_le_e(b, i, (e - 1) as nat);
        lemma_pow_pos(b, (e - 1) as nat);
        assert(pow_spec(b, (e - 1) as nat) <= b * pow_spec(b, (e - 1) as nat))
            by (nonlinear_arith)
            requires
                b >= 1,
                pow_spec(b, (e - 1) as nat) >= 1,
        ;
    }
}

/// The integer `k`-th root: the largest `r` with `r^k <= x`.
pub open spec fn root_spec(x: nat, k: nat) -> nat
    decreases x,
{
    if x == 0 {
        0
    } else {
        let s = root_spec((x - 1) as nat, k);
        if pow_spec(s + 1, k) <= x {
            s + 1
        } else {
            s
        }
    }
}

pub proof fn lemma_root_bounds(x: nat, k: nat)
    requires
        k >= 1,
    ensures
        pow_spec(root_spec(x, k), k) <= x,
        x < pow_spec(root_spec(x, k) + 1, k),
    decreases x,
{
    let r = root_spec(x, k);
    if x == 0 {
        assert(r == 0);
        assert(pow_spec(0, k) == 0 * pow_spec(0, (k - 1) as nat));
        lemma_pow_pos(1, k);
        lemma_pow_base_lt(0, 1, k);
    } else {
        let s = root_spec((x - 1) as nat, k);
        lemma_root_bounds((x - 1) as nat, k);
        if pow_spec(s + 1, k) <= x {
            assert(r == s + 1);
            lemma_pow_base_lt(s + 1, s + 2, k);
        } else {
            assert(r == s);
        }
    }
}

/// Two integers that both satisfy the root bounds are equal.
pub proof fn lemma_root_unique(x: nat, k: nat, a: nat, b: nat)
    requires
        k >= 1,
        pow_spec(a, k) <= x < pow_spec(a + 1, k),
        pow_spec(b, k) <= x < pow_spec(b + 1, k),
    ensures
        a == b,
{
    if a < b {
        lemma_pow_base_le(a + 1, b, k);
    }
    if b < a {
        lemma_pow_base_le(b + 1, a, k);
    }
}

/// The integer `k`-th root of `x`, by binary search below `hi`.
pub fn int_root(x: u128, k: u32, hi: u128) -> (r: u128)
    requires
        k >= 1,
        hi >= 1,
        pow_spec(hi as nat, k as nat) <= u128::MAX,
        x < pow_spec(hi as nat, k as nat),
    ensures
        r == root_spec(x as nat, k as nat),
        pow_spec(r as nat, k as nat) <= x,
        x < pow_spec((r + 1) as nat, k as nat),
{
    let mut lo: u128 = 0;
    let mut hi_v: u128 = hi;
    proof {
        assert(pow_spec(0, k as nat) == 0 * pow_spec(0, (k - 1) as nat));
    }
    while hi_v - lo > 1
        invariant
            lo < hi_v,
            hi_v <= hi,
            k >= 1,
            pow_spec(hi as nat, k as nat) <= u128::MAX,
            pow_spec(lo as nat, k as nat) <= x,
            x < pow_spec(hi_v as nat, k as nat),
        decreases hi_v - lo,
    {
        let mid: u128 = lo + (hi_v - lo) / 2;
        proof {
            lemma_pow_base_le(mid as nat, hi as nat, k as nat);
        }
        if pow_u128(mid, k) <= x {
            lo = mid;
        } else {
            hi_v = mid;
        }
    }
    proof {
        lemma_root_bounds(x as nat, k as nat);
        lemma_root_unique(x as nat, k as nat, lo as nat, root_spec(x as nat, k as nat));
    }
    lo
}

/// Integer square root of a `u64`.
pub fn isqrt(x: u64) -> (r: u64)
    ensures
        r * r <= x,
        x < (r + 1) * (r + 1),
        r == isqrt_spec(x as nat),
{
    let mut lo: u64 = 0;
    let mut hi: u64 = 4294967296;
    assert(x < hi * hi) by (nonlinear_arith)
        requires
            hi == 4294967296,
            x <= u64::MAX,
    ;
    while hi - lo > 1
        invariant
            lo < hi,
            hi <= 4294967296,
            lo * lo <= x,
            x < hi * hi,
        decreases hi - lo,
    {
        let mid: u64 = lo + (hi - lo) / 2;
        assert((mid as u128) * (mid as u128) <= u128::MAX) by (nonlinear_arith)
            requires
                mid <= 4294967296,
        ;
        if (mid as u128) * (mid as u128) <= (x as u128) {
            lo = mid;
        } else {
            hi = mid;
        }
    }
    proof {
        lemma_isqrt_bounds(x as nat);
        lemma_isqrt_unique(x as nat, lo as nat, isqrt_spec(x as nat));
    }
    lo
}

} // verus!
