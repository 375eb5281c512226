//! Fixed-point reals: a value `x` stands for `x / ONE`. Every operation
//! saturates at `LIM`, so results stay in range whatever the inputs.
use vstd::prelude::*;

verus! {

/// The raw value of the real number one.
pub const ONE: i64 = 65536;

/// The largest magnitude a fixed-point value takes; results saturate here.
pub const LIM: i64 = 70368744177664;

pub open spec fn in_range(x: int) -> bool {
    -LIM <= x <= LIM
}

/// Clamps a mathematical integer into the representable range.
pub open spec fn sat(x: int) -> int {
    if x > LIM {
        LIM as int
    } else if x < -LIM {
        -LIM
    } else {
        x
    }
}

/// Integer division rounding toward zero; zero for a zero divisor.
pub open spec fn tdiv(a: int, b: int) -> int {
    if b == 0 {
        0
    } else if a >= 0 && b > 0 {
        a / b
    } else if a < 0 && b > 0 {
        -((-a) / b)
    } else if a >= 0 {
        -(a / (-b))
    } else {
        (-a) / (-b)
    }
}

pub open spec fn sadd(a: int, b: int) -> int {
    sat(a + b)
}

pub open spec fn ssub(a: int, b: int) -> int {
    sat(a - b)
}

pub open spec fn smul(a: int, b: int) -> int {
    sat(tdiv(a * b, ONE as int))
}

/// Fixed-point quotient; a zero divisor gives zero.
pub open spec fn sdiv(a: int, b: int) -> int {
    if b == 0 {
        0
    } else {
        sat(tdiv(a * ONE, b))
    }
}

/// `r` is the integer square root of `n`.
pub open spec fn is_isqrt(r: int, n: int) -> bool {
    0 <= r && r * r <= n < (r + 1) * (r + 1)
}

/// Fixed-point square root, rounded down; zero for values that are not positive.
pub open spec fn ssqrt(a: int) -> int {
    if a <= 0 {
        0
    } else {
        choose|r: int| #[trigger] is_isqrt(r, a * ONE)
    }
}

proof fn lemma_isqrt_unique(r1: int, r2: int, n: int)
    requires
        is_isqrt(r1, n),
        is_isqrt(r2, n),
    ensures
        r1 == r2,
{
    if r1 < r2 {
        assert((r1 + 1) * (r1 + 1) <= r2 * r2) by (nonlinear_arith)
            requires 0 <= r1 + 1 <= r2;
    } else if r2 < r1 {
        assert((r2 + 1) * (r2 + 1) <= r1 * r1) by (nonlinear_arith)
            requires 0 <= r2 + 1 <= r1;
    }
}

/// Every non-negative integer has an integer square root.
pub proof fn lemma_isqrt_exists(n: int)
    requires
        0 <= n,
    ensures
        exists|r: int| #[trigger] is_isqrt(r, n),
    decreases n,
{
    if n == 0 {
        assert(is_isqrt(0, 0));
    } else {
        lemma_isqrt_exists(n - 1);
        let r = choose|r: int| #[trigger] is_isqrt(r, n - 1);
        if n < (r + 1) * (r + 1) {
            assert(is_isqrt(r, n));
        } else {
            assert(n == (r + 1) * (r + 1));
            assert(n < (r + 2) * (r + 2)) by (nonlinear_arith) requires n == (r + 1) * (r + 1), r >= 0;
            assert(is_isqrt(r + 1, n));
        }
    }
}

pub proof fn lemma_tdiv_monotone(a: int, b: int, d: int)
    requires
        a <= b,
        d > 0,
    ensures
        tdiv(a, d) <= tdiv(b, d),
{
    if a >= 0 {
        vstd::arithmetic::div_mod::lemma_div_is_ordered(a, b, d);
    } else if b >= 0 {
        vstd::arithmetic::div_mod::lemma_div_pos_is_pos(-a, d);
        vstd::arithmetic::div_mod::lemma_div_pos_is_pos(b, d);
    } else {
        vstd::arithmetic::div_mod::lemma_div_is_ordered(-b, -a, d);
    }
}

pub proof fn lemma_tdiv_neg(a: int, d: int)
    requires
        d > 0,
    ensures
        tdiv(-a, d) == -tdiv(a, d),
{
    if a == 0 {
        assert(0int / d == 0);
    }
}

/// Saturates a wide intermediate into the fixed-point range.
pub fn saturate(x: i128) -> (r: i64)
    ensures
        r == sat(x as int),
{
    if x > LIM as i128 {
        LIM
    } else if x < -(LIM as i128) {
        -LIM
    } else {
        x as i64
    }
}

/// Division rounding toward zero of wide intermediates.
pub(crate) fn tdiv_wide(a: i128, b: i128) -> (r: i128)
    requires
        b != 0,
        -0x1000_0000_0000_0000_0000_0000_0000 <= a <= 0x1000_0000_0000_0000_0000_0000_0000,
        -0x1000_0000_0000_0000_0000_0000_0000 <= b <= 0x1000_0000_0000_0000_0000_0000_0000,
    ensures
        r == tdiv(a as int, b as int),
{
    let neg_a = a < 0;
    let neg_b = b < 0;
    let ua: u128 = if neg_a { (-a) as u128 } else { a as u128 };
    let ub: u128 = if neg_b { (-b) as u128 } else { b as u128 };
    let q: u128 = ua / ub;
    proof {
        vstd::arithmetic::div_mod::lemma_div_is_ordered_by_denominator(ua as int, 1, ub as int);
    }
    if neg_a != neg_b {
        -(q as i128)
    } else {
        q as i128
    }
}

pub fn fx_add(a: i64, b: i64) -> (r: i64)
    requires
        in_range(a as int),
        in_range(b as int),
    ensures
        r == sadd(a as int, b as int),
        in_range(r as int),
{
    saturate(a as i128 + b as i128)
}

pub fn fx_sub(a: i64, b: i64) -> (r: i64)
    requires
        in_range(a as int),
        in_range(b as int),
    ensures
        r == ssub(a as int, b as int),
        in_range(r as int),
{
    saturate(a as i128 - b as i128)
}

pub fn fx_mul(a: i64, b: i64) -> (r: i64)
    requires
        in_range(a as int),
        in_range(b as int),
    ensures
        r == smul(a as int, b as int),
        in_range(r as int),
{
    assert(-0x1000_0000_0000_0000_0000_0000 <= a as int * b as int <= 0x1000_0000_0000_0000_0000_0000)
        by (nonlinear_arith)
        requires
            -LIM <= a <= LIM,
            -LIM <= b <= LIM,
    ;
    let p: i128 = a as i128 * b as i128;
    saturate(tdiv_wide(p, ONE as i128))
}

pub fn fx_div(a: i64, b: i64) -> (r: i64)
    requires
        in_range(a as int),
        in_range(b as int),
    ensures
        r == sdiv(a as int, b as int),
        in_range(r as int),
{
    if b == 0 {
        0
    } else {
        let p: i128 = a as i128 * ONE as i128;
        saturate(tdiv_wide(p, b as i128))
    }
}

/// Integer square root by bisection.
fn isqrt(n: u64) -> (r: u64)
    requires
        n <= 0x4000_0000_0000_0000,
    ensures
        is_isqrt(r as int, n as int),
        r <= 0x8000_0000,
{
    let mut lo: u64 = 0;
    let mut hi: u64 = 0x8000_0001;
    assert(0x4000_0000_0000_0000 < 0x8000_0001 * 0x8000_0001) by (nonlinear_arith);
    while hi - lo > 1
        invariant
            lo < hi <= 0x8000_0001,
            lo * lo <= n,
            n < hi * hi,
        decreases hi - lo,
    {
        let mid: u64 = lo + (hi - lo) / 2;
        assert(mid * mid <= 0x4000_0001_0000_0001) by (nonlinear_arith)
            requires mid <= 0x8000_0001;
        if mid * mid <= n {
            lo = mid;
        } else {
            hi = mid;
        }
    }
    assert(hi == lo + 1);
    if lo > 0x8000_0000 {
        assert(lo * lo > 0x4000_0000_0000_0000) by (nonlinear_arith)
            requires lo > 0x8000_0000;
    }
    lo
}

pub fn fx_sqrt(a: i64) -> (r: i64)
    requires
        in_range(a as int),
    ensures
        r == ssqrt(a as int),
        0 <= r <= 0x8000_0000,
        in_range(r as int),
{
    if a <= 0 {
        0
    } else {
        assert(a * ONE <= 0x4000_0000_0000_0000) by (nonlinear_arith)
            requires 0 < a <= LIM;
        let n: u64 = (a as u64) * (ONE as u64);
        let r = isqrt(n);
        proof {
            let c = choose|x: int| #[trigger] is_isqrt(x, a * ONE);
            assert(is_isqrt(r as int, a * ONE));
            lemma_isqrt_unique(r as int, c, a * ONE);
        }
        r as i64
    }
}

/// Clamps `x` into `[min, max]`.
pub fn clamp(x: i64, min: i64, max: i64) -> (r: i64)
    requires
        min <= max,
    ensures
        r == (if x < min { min } else if x > max { max } else { x }),
        min <= r <= max,
{
    if x < min {
        return min;
    }
    if x > max {
        return max;
    }
    x
}

} // verus!
