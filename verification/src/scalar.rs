//! Fixed-point scalar arithmetic.
//!
//! A scalar is an `i64` holding a real number scaled by `FX_ONE`
//! (so the unit is `1 / 65536`). Every operation is exact integer
//! arithmetic: products and quotients truncate toward zero, results
//! are clamped to the `i64` range, and square roots round down.

use vstd::prelude::*;

verus! {

/// The representation of the real number one.
pub const FX_ONE: i64 = 65536;

/// Half of one, used for portal midpoints and triangle areas.
pub const FX_HALF: i64 = 32768;

/// Tolerance under which two scalars count as equal; relative to
/// `FX_ONE` this is about `2.4e-4`.
pub const ZERO_TRESHOLD: i64 = 16;

/// Largest scalar; stands in for an unreachable cost.
pub const SCALAR_MAX: i64 = i64::MAX;

/// Clamp a mathematical integer into the `i64` range.
pub open spec fn clamp64(v: int) -> int {
    if v > i64::MAX as int {
        i64::MAX as int
    } else if v < i64::MIN as int {
        i64::MIN as int
    } else {
        v
    }
}

/// Clamp a mathematical integer into `i64`, typed as `i64`.
pub open spec fn c64(v: int) -> i64 {
    clamp64(v) as i64
}

pub open spec fn abs_i(v: int) -> int {
    if v < 0 {
        -v
    } else {
        v
    }
}

/// Division truncating toward zero (the rounding the scalar type uses).
pub open spec fn tdiv(a: int, b: int) -> int
    recommends
        b != 0,
{
    if (a < 0) == (b < 0) {
        abs_i(a) / abs_i(b)
    } else {
        -(abs_i(a) / abs_i(b))
    }
}

pub open spec fn fx_add_spec(a: int, b: int) -> int {
    clamp64(a + b)
}

pub open spec fn fx_sub_spec(a: int, b: int) -> int {
    clamp64(a - b)
}

pub open spec fn fx_mul_spec(a: int, b: int) -> int {
    clamp64(tdiv(a * b, FX_ONE as int))
}

pub open spec fn fx_div_spec(a: int, b: int) -> int {
    if b == 0 {
        0
    } else {
        clamp64(tdiv(a * (FX_ONE as int), b))
    }
}

pub open spec fn is_sqrt_floor(n: int, r: int) -> bool {
    0 <= r && r * r <= n && n < (r + 1) * (r + 1)
}

/// The square root of `n`, rounded down; meaningful for `n >= 0`.
pub open spec fn sqrt_floor(n: int) -> int {
    choose|r: int| is_sqrt_floor(n, r)
}

/// Square root of a scalar: `fx_sqrt_spec(a) / FX_ONE` is the rounded-down
/// root of `a / FX_ONE`, because `sqrt(a / FX_ONE) = sqrt(a * FX_ONE) / FX_ONE`.
pub open spec fn fx_sqrt_spec(a: int) -> int {
    if a <= 0 {
        0
    } else {
        sqrt_floor(a * (FX_ONE as int))
    }
}

pub proof fn lemma_sqrt_floor_is(n: int, r: int)
    requires
        is_sqrt_floor(n, r),
    ensures
        sqrt_floor(n) == r,
{
    assert(is_sqrt_floor(n, sqrt_floor(n)));
    let s = sqrt_floor(n);
    assert(s == r) by (nonlinear_arith)
        requires
            is_sqrt_floor(n, r),
            is_sqrt_floor(n, s),
    ;
}

fn clamp_to_i64(v: i128) -> (r: i64)
    ensures
        r as int == clamp64(v as int),
{
    if v > i64::MAX as i128 {
        i64::MAX
    } else if v < i64::MIN as i128 {
        i64::MIN
    } else {
        v as i64
    }
}

/// Truncating division of a product by a positive divisor.
fn tdiv128(p: i128, d: i128) -> (q: i128)
    requires
        0 < d,
        i128::MIN < p,
    ensures
        q as int == tdiv(p as int, d as int),
        abs_i(q as int) <= abs_i(p as int),
{
    if p >= 0 {
        let u: u128 = (p as u128) / (d as u128);
        assert((p as u128) / (d as u128) <= p as u128) by (nonlinear_arith)
            requires
                d as u128 >= 1,
        ;
        u as i128
    } else {
        let n: u128 = (-p) as u128;
        let u: u128 = n / (d as u128);
        assert(n / (d as u128) <= n) by (nonlinear_arith)
            requires
                d as u128 >= 1,
        ;
        -(u as i128)
    }
}

/// Saturating addition.
pub fn fx_add(a: i64, b: i64) -> (r: i64)
    ensures
        r as int == fx_add_spec(a as int, b as int),
{
    clamp_to_i64(a as i128 + b as i128)
}

/// Saturating subtraction.
pub fn fx_sub(a: i64, b: i64) -> (r: i64)
    ensures
        r as int == fx_sub_spec(a as int, b as int),
{
    clamp_to_i64(a as i128 - b as i128)
}

/// Scalar product: `(a * b) / FX_ONE`, truncated toward zero, clamped.
pub fn fx_mul(a: i64, b: i64) -> (r: i64)
    ensures
        r as int == fx_mul_spec(a as int, b as int),
{
    proof {
        let big: int = (0x8000000000000000u128 as int) * (0x8000000000000000u128 as int);
        assert(-big <= (a as int) * (b as int) <= big) by (nonlinear_arith)
            requires
                big == (0x8000000000000000u128 as int) * (0x8000000000000000u128 as int),
                -(0x8000000000000000u128 as int) <= a as int <= 0x8000000000000000u128 as int,
                -(0x8000000000000000u128 as int) <= b as int <= 0x8000000000000000u128 as int,
        ;
    }
    let p: i128 = (a as i128) * (b as i128);
    clamp_to_i64(tdiv128(p, FX_ONE as i128))
}

/// Scalar quotient: `(a * FX_ONE) / b`, truncated toward zero, clamped;
/// division by zero yields zero.
pub fn fx_div(a: i64, b: i64) -> (r: i64)
    ensures
        r as int == fx_div_spec(a as int, b as int),
{
    if b == 0 {
        return 0;
    }
    proof {
        let big: int = (0x8000000000000000u128 as int) * (FX_ONE as int);
        assert(-big <= (a as int) * (FX_ONE as int) <= big) by (nonlinear_arith)
            requires
                big == (0x8000000000000000u128 as int) * (FX_ONE as int),
                -(0x8000000000000000u128 as int) <= a as int <= 0x8000000000000000u128 as int,
                FX_ONE == 65536,
        ;
    }
    let p: i128 = (a as i128) * (FX_ONE as i128);
    let q: i128 = if b > 0 {
        tdiv128(p, b as i128)
    } else {
        let m: i128 = tdiv128(p, -(b as i128));
        assert(tdiv(p as int, b as int) == -tdiv(p as int, -(b as int)));
        -m
    };
    clamp_to_i64(q)
}

/// Rounded-down integer square root.
fn isqrt(n: u128) -> (r: u64)
    requires
        n < (0x8000000000000000u128 as int) * (0x8000000000000000u128 as int),
    ensures
        is_sqrt_floor(n as int, r as int),
{
    if n == 0 {
        return 0;
    }
    let mut lo: u128 = 0;
    let mut hi: u128 = 0x8000000000000000u128;
    while hi - lo > 1
        invariant
            0 <= lo < hi <= 0x8000000000000000u128,
            (lo as int) * (lo as int) <= n as int,
            (n as int) < (hi as int) * (hi as int),
        decreases hi - lo,
    {
        let mid: u128 = lo + (hi - lo) / 2;
        assert((mid as int) * (mid as int) < 0x100000000000000000000000000000000int)
            by (nonlinear_arith)
            requires
                0 <= mid <= 0x8000000000000000u128,
        ;
        if mid * mid <= n {
            lo = mid;
        } else {
            hi = mid;
        }
    }
    assert(hi == lo + 1);
    assert(lo < 0x10000000000000000u128);
    lo as u64
}

/// Rounded-down scalar square root; non-positive inputs yield zero.
pub fn fx_sqrt(a: i64) -> (r: i64)
    ensures
        r as int == fx_sqrt_spec(a as int),
        r >= 0,
{
    if a <= 0 {
        return 0;
    }
    proof {
        assert((a as int) * (FX_ONE as int) <= (0x8000000000000000u128 as int) * (FX_ONE as int))
            by (nonlinear_arith)
            requires
                0 <= a as int <= 0x8000000000000000u128 as int,
                FX_ONE == 65536,
        ;
    }
    let n: u128 = (a as u128) * (FX_ONE as u128);
    assert(n as int == (a as int) * (FX_ONE as int));
    let r: u64 = isqrt(n);
    proof {
        lemma_sqrt_floor_is(n as int, r as int);
        assert((r as int) * (r as int) <= n as int);
        assert(n as int <= (i64::MAX as int) * (FX_ONE as int));
        assert(r as int <= 0xFFFFFFFFFFi64 as int) by (nonlinear_arith)
            requires
                (r as int) * (r as int) <= (i64::MAX as int) * (FX_ONE as int),
                r >= 0,
        ;
    }
    r as i64
}

/// The larger of two scalars.
pub fn fx_max(a: i64, b: i64) -> (r: i64)
    ensures
        r == if a >= b { a } else { b },
{
    if a >= b {
        a
    } else {
        b
    }
}


/// An integer square root exists for every nonnegative integer, so
/// `sqrt_floor` denotes it.
pub proof fn lemma_sqrt_floor_exists(n: int)
    requires
        n >= 0,
    ensures
        is_sqrt_floor(n, sqrt_floor(n)),
    decreases n,
{
    if n == 0 {
        assert(is_sqrt_floor(0, 0));
        assert(exists|r: int| is_sqrt_floor(0, r));
    } else {
        lemma_sqrt_floor_exists(n - 1);
        let r = sqrt_floor(n - 1);
        if (r + 1) * (r + 1) <= n {
            assert(n == (r + 1) * (r + 1));
            assert((r + 1) * (r + 1) < (r + 2) * (r + 2)) by (nonlinear_arith)
                requires
                    r >= 0,
            ;
            assert(is_sqrt_floor(n, r + 1));
        } else {
            assert(is_sqrt_floor(n, r));
        }
    }
}

/// Multiplying a scalar by one changes nothing.
pub proof fn lemma_fx_mul_one(x: int)
    requires
        i64::MIN as int <= x <= i64::MAX as int,
    ensures
        fx_mul_spec(x, FX_ONE as int) == x,
{
    if x >= 0 {
        vstd::arithmetic::div_mod::lemma_div_multiples_vanish(x, FX_ONE as int);
        assert(tdiv(x * FX_ONE, FX_ONE as int) == x);
    } else {
        vstd::arithmetic::div_mod::lemma_div_multiples_vanish(-x, FX_ONE as int);
        assert(abs_i(x * FX_ONE) == (-x) * FX_ONE);
        assert(tdiv(x * FX_ONE, FX_ONE as int) == x);
    }
}

/// Multiplying a scalar by zero gives zero.
pub proof fn lemma_fx_mul_zero(x: int)
    ensures
        fx_mul_spec(x, 0) == 0,
        fx_mul_spec(0, x) == 0,
{
    assert(x * 0 == 0) by (nonlinear_arith);
    assert(0 * x == 0) by (nonlinear_arith);
    assert(tdiv(0, FX_ONE as int) == 0);
}

/// A positive scalar divided by itself is one.
pub proof fn lemma_fx_div_self(d: int)
    requires
        0 < d <= i64::MAX as int,
    ensures
        fx_div_spec(d, d) == FX_ONE as int,
{
    vstd::arithmetic::div_mod::lemma_div_multiples_vanish(FX_ONE as int, d);
    assert(d * FX_ONE == d * (FX_ONE as int));
    assert(tdiv(d * FX_ONE, d) == FX_ONE);
}

/// Dividing zero gives zero.
pub proof fn lemma_fx_div_zero_num(d: int)
    ensures
        fx_div_spec(0, d) == 0,
{
    if d != 0 {
        assert(tdiv(0 * FX_ONE, d) == 0) by {
            assert(0 * FX_ONE == 0) by (nonlinear_arith);
            assert(abs_i(0) / abs_i(d) == 0) by {
                vstd::arithmetic::div_mod::lemma_basic_div(0, abs_i(d));
            }
        }
    }
}


/// The scalar product is monotone on nonnegative operands.
pub proof fn lemma_fx_mul_monotone(a: int, b: int, a2: int, b2: int)
    requires
        0 <= a <= a2,
        0 <= b <= b2,
    ensures
        0 <= fx_mul_spec(a, b) <= fx_mul_spec(a2, b2),
{
    assert(0 <= a * b <= a2 * b2) by (nonlinear_arith)
        requires
            0 <= a <= a2,
            0 <= b <= b2,
    ;
    vstd::arithmetic::div_mod::lemma_div_is_ordered(a * b, a2 * b2, FX_ONE as int);
    assert(tdiv(a * b, FX_ONE as int) <= tdiv(a2 * b2, FX_ONE as int));
    assert(tdiv(a * b, FX_ONE as int) >= 0);
}

} // verus!
