//! Saturating fixed-point scalars: a value `v` stands for the real `v / SCALE`,
//! and every result is clamped into `[-LIMIT, LIMIT]`.
use vstd::arithmetic::div_mod::{lemma_div_is_ordered, lemma_div_multiples_vanish};
use vstd::prelude::*;

verus! {

/// Number of fixed-point steps per unit.
pub const SCALE: i64 = 4096;

/// Largest magnitude that a scalar may hold (65536 units).
pub const LIMIT: i64 = 268435456;

/// A scalar within the representable range.
pub open spec fn in_range(v: int) -> bool {
    -LIMIT <= v <= LIMIT
}

/// Saturation into the representable range.
pub open spec fn clamp(v: int) -> int {
    if v > LIMIT {
        LIMIT as int
    } else if v < -LIMIT {
        -LIMIT
    } else {
        v
    }
}

/// Division rounding toward zero, for a positive divisor.
pub open spec fn tdiv(n: int, d: int) -> int {
    if n >= 0 {
        n / d
    } else {
        -((-n) / d)
    }
}

/// Fixed-point product.
pub open spec fn fmul_spec(a: int, b: int) -> int {
    clamp(tdiv(a * b, SCALE as int))
}

/// Fixed-point quotient, for a nonzero divisor.
pub open spec fn fdiv_spec(a: int, b: int) -> int {
    if b > 0 {
        clamp(tdiv(a * SCALE, b))
    } else {
        clamp(-tdiv(a * SCALE, -b))
    }
}

/// `r` is the integer square root of `n`.
pub open spec fn is_isqrt(n: int, r: int) -> bool {
    0 <= r && r * r <= n && n < (r + 1) * (r + 1)
}

/// Fixed-point square root of a nonnegative scalar: the integer square root of `a * SCALE`.
pub open spec fn fsqrt_spec(a: int) -> int {
    choose|r: int| #[trigger] is_isqrt(a * SCALE, r)
}

pub proof fn lemma_isqrt_unique(n: int, r1: int, r2: int)
    requires
        is_isqrt(n, r1),
        is_isqrt(n, r2),
    ensures
        r1 == r2,
{
    if r1 < r2 {
        assert((r1 + 1) * (r1 + 1) <= r2 * r2) by (nonlinear_arith)
            requires
                0 <= r1,
                r1 + 1 <= r2,
        ;
    } else if r2 < r1 {
        assert((r2 + 1) * (r2 + 1) <= r1 * r1) by (nonlinear_arith)
            requires
                0 <= r2,
                r2 + 1 <= r1,
        ;
    }
}

/// Every nonnegative integer has an integer square root.
pub proof fn lemma_isqrt_exists(n: int) -> (r: int)
    requires
        n >= 0,
    ensures
        is_isqrt(n, r),
    decreases n,
{
    if n == 0 {
        assert(is_isqrt(0, 0)) by (nonlinear_arith);
        0
    } else {
        let p = lemma_isqrt_exists(n - 1);
        if (p + 1) * (p + 1) <= n {
            assert(n < (p + 2) * (p + 2)) by (nonlinear_arith)
                requires
                    p >= 0,
                    n - 1 < (p + 1) * (p + 1),
            ;
            assert(is_isqrt(n, p + 1));
            p + 1
        } else {
            assert(is_isqrt(n, p));
            p
        }
    }
}

/// The fixed-point square root of a nonnegative scalar is the integer square root of `a * SCALE`.
pub proof fn lemma_fsqrt(a: int)
    requires
        a >= 0,
    ensures
        is_isqrt(a * SCALE, fsqrt_spec(a)),
        fsqrt_spec(a) >= 0,
{
    let r = lemma_isqrt_exists(a * SCALE);
    assert(is_isqrt(a * SCALE, r));
}

pub proof fn lemma_product_bound(a: int, b: int)
    requires
        in_range(a),
        in_range(b),
    ensures
        -(LIMIT * LIMIT) <= a * b <= LIMIT * LIMIT,
{
    assert(-(LIMIT * LIMIT) <= a * b <= LIMIT * LIMIT) by (nonlinear_arith)
        requires
            -LIMIT <= a <= LIMIT,
            -LIMIT <= b <= LIMIT,
    ;
}

/// On nonnegative arguments the fixed-point product is nonnegative and monotone in both.
pub proof fn lemma_fmul_monotone(a: int, b: int, a2: int, b2: int)
    requires
        0 <= a <= a2,
        0 <= b <= b2,
    ensures
        0 <= fmul_spec(a, b) <= fmul_spec(a2, b2),
{
    assert(0 <= a * b <= a2 * b2) by (nonlinear_arith)
        requires
            0 <= a <= a2,
            0 <= b <= b2,
    ;
    lemma_div_is_ordered(a * b, a2 * b2, SCALE as int);
    lemma_div_is_ordered(0, a * b, SCALE as int);
}

/// Negating the first factor negates the fixed-point product.
pub proof fn lemma_fmul_odd(a: int, b: int)
    ensures
        fmul_spec(-a, b) == -fmul_spec(a, b),
{
    assert((-a) * b == -(a * b)) by (nonlinear_arith);
}

/// With a nonnegative first factor the fixed-point product is monotone in the second,
/// whatever its sign.
pub proof fn lemma_fmul_monotone_right(k: int, b1: int, b2: int)
    requires
        0 <= k,
        b1 <= b2,
    ensures
        fmul_spec(k, b1) <= fmul_spec(k, b2),
{
    assert(k * b1 <= k * b2) by (nonlinear_arith)
        requires
            0 <= k,
            b1 <= b2,
    ;
    lemma_tdiv_monotone(k * b1, k * b2, SCALE as int);
}

/// Rounding toward zero never yields more than `m` when `|n| <= d * m`.
pub proof fn lemma_tdiv_bound(n: int, d: int, m: int)
    requires
        d > 0,
        m >= 0,
        -(d * m) <= n <= d * m,
    ensures
        -m <= tdiv(n, d) <= m,
{
    let a: int = if n >= 0 { n } else { -n };
    lemma_div_is_ordered(a, d * m, d);
    lemma_div_is_ordered(0, a, d);
    lemma_div_multiples_vanish(m, d);
}

/// Rounding toward zero by a positive divisor is monotone.
pub proof fn lemma_tdiv_monotone(n1: int, n2: int, d: int)
    requires
        d > 0,
        n1 <= n2,
    ensures
        tdiv(n1, d) <= tdiv(n2, d),
{
    if n1 >= 0 {
        lemma_div_is_ordered(n1, n2, d);
    } else if n2 < 0 {
        lemma_div_is_ordered(-n2, -n1, d);
    } else {
        lemma_div_is_ordered(0, -n1, d);
        lemma_div_is_ordered(0, n2, d);
    }
}

/// A fixed-point quotient by a positive divisor is monotone in its numerator.
pub proof fn lemma_fdiv_monotone(a1: int, a2: int, b: int)
    requires
        b > 0,
        a1 <= a2,
    ensures
        fdiv_spec(a1, b) <= fdiv_spec(a2, b),
{
    assert(a1 * SCALE <= a2 * SCALE) by (nonlinear_arith)
        requires
            a1 <= a2,
    ;
    lemma_tdiv_monotone(a1 * SCALE, a2 * SCALE, b);
}

/// Saturates a wide intermediate value into the representable range.
pub fn saturate(v: i64) -> (r: i64)
    ensures
        r == clamp(v as int),
        in_range(r as int),
{
    if v > LIMIT {
        LIMIT
    } else if v < -LIMIT {
        -LIMIT
    } else {
        v
    }
}

/// Division rounding toward zero by a positive divisor.
pub fn trunc_div(n: i64, d: i64) -> (r: i64)
    requires
        d > 0,
        n > i64::MIN,
    ensures
        r == tdiv(n as int, d as int),
{
    if n >= 0 {
        n / d
    } else {
        let m: i64 = -n;
        -(m / d)
    }
}

/// Fixed-point product of two scalars.
pub fn fmul(a: i64, b: i64) -> (r: i64)
    requires
        in_range(a as int),
        in_range(b as int),
    ensures
        r == fmul_spec(a as int, b as int),
        in_range(r as int),
{
    proof {
        lemma_product_bound(a as int, b as int);
    }
    saturate(trunc_div(a * b, SCALE))
}

/// Fixed-point quotient of two scalars; the divisor is nonzero.
pub fn fdiv(a: i64, b: i64) -> (r: i64)
    requires
        in_range(a as int),
        in_range(b as int),
        b != 0,
    ensures
        r == fdiv_spec(a as int, b as int),
        in_range(r as int),
{
    proof {
        assert(-(LIMIT * SCALE) <= a * SCALE <= LIMIT * SCALE) by (nonlinear_arith)
            requires
                -LIMIT <= a <= LIMIT,
        ;
    }
    let n: i64 = a * SCALE;
    if b > 0 {
        saturate(trunc_div(n, b))
    } else {
        let q: i64 = trunc_div(n, -b);
        proof {
            let nn: int = if n >= 0 { n as int } else { -n };
            let dd: int = -b;
            assert(nn / dd <= nn) by (nonlinear_arith)
                requires
                    nn >= 0,
                    dd >= 1,
            ;
        }
        saturate(-q)
    }
}

/// Fixed-point square root of a nonnegative scalar.
pub fn fsqrt(a: i64) -> (r: i64)
    requires
        0 <= a <= LIMIT,
    ensures
        r == fsqrt_spec(a as int),
        is_isqrt(a * SCALE, r as int),
        0 <= r <= 1048576,
{
    let n: i64 = a * SCALE;
    let mut lo: i64 = 0;
    let mut hi: i64 = 1048577;
    assert(n < hi * hi);
    while hi - lo > 1
        invariant
            n == a * SCALE,
            0 <= n <= LIMIT * SCALE,
            0 <= lo < hi <= 1048577,
            lo * lo <= n,
            n < hi * hi,
        decreases hi - lo,
    {
        let mid: i64 = lo + (hi - lo) / 2;
        assert(mid * mid <= 1048577 * 1048577) by (nonlinear_arith)
            requires
                0 <= mid <= 1048577,
        ;
        if mid * mid <= n {
            lo = mid;
        } else {
            hi = mid;
        }
    }
    proof {
        assert(hi == lo + 1);
        assert(lo * lo <= 1048576 * 1048576) by (nonlinear_arith)
            requires
                0 <= lo,
                lo * lo <= n,
                n <= LIMIT * SCALE,
        ;
        if lo > 1048576 {
            assert(lo * lo > 1048576 * 1048576) by (nonlinear_arith)
                requires
                    lo > 1048576,
            ;
        }
        assert(is_isqrt(n as int, lo as int));
        assert(exists|r: int| #[trigger] is_isqrt(a * SCALE, r));
        lemma_isqrt_unique(n as int, lo as int, fsqrt_spec(a as int));
    }
    lo
}

} // verus!
