//! Fixed-point scalars.
//!
//! Every scalar of the engine (a coordinate, a speed, a duration, a fraction) is
//! an `i64` that counts millionths: the raw value `1_000_000` stands for 1.0.
//! Products and quotients are taken in 128 bits and rounded toward zero, so that
//! negating an operand negates the result.

use vstd::prelude::*;

verus! {

/// The raw value of 1.0.
pub const SCALE: i64 = 1_000_000;

/// Largest magnitude of a raw coordinate that the vector operations accept
/// without further proof that they stay in range: two to the power of sixty.
pub const LIMIT: i64 = 0x1000_0000_0000_0000;

/// The absolute value of an integer.
pub open spec fn magnitude(a: int) -> int {
    if a >= 0 {
        a
    } else {
        -a
    }
}

/// The quotient of `a` by a positive `d`, rounded toward zero.
pub open spec fn trunc_div(a: int, d: int) -> int
    recommends
        d > 0,
{
    if a >= 0 {
        a / d
    } else {
        -((-a) / d)
    }
}

/// `r` is the integer square root of `n`, rounded down.
pub open spec fn is_floor_sqrt(n: int, r: int) -> bool {
    0 <= r && r * r <= n < (r + 1) * (r + 1)
}

/// The integer square root of `n`, rounded down (for `n >= 0`).
pub open spec fn floor_sqrt(n: int) -> int {
    choose|r: int| is_floor_sqrt(n, r)
}

/// Rounding toward zero keeps the sign, never grows the magnitude, and is off
/// by less than one divisor.
pub proof fn lemma_trunc_div(a: int, d: int)
    requires
        d > 0,
    ensures
        a >= 0 ==> 0 <= trunc_div(a, d) && trunc_div(a, d) * d <= a < (trunc_div(a, d) + 1) * d,
        a <= 0 ==> trunc_div(a, d) <= 0 && (trunc_div(a, d) - 1) * d < a <= trunc_div(a, d) * d,
        magnitude(trunc_div(a, d)) <= magnitude(a),
        trunc_div(-a, d) == -trunc_div(a, d),
{
    let p = magnitude(a);
    let q = p / d;
    assert(0 <= q && q * d <= p < (q + 1) * d && q <= p) by (nonlinear_arith)
        requires
            p >= 0,
            d > 0,
            q == p / d,
    ;
    assert((-q - 1) * d == -((q + 1) * d)) by (nonlinear_arith);
    assert((-q) * d == -(q * d)) by (nonlinear_arith);
}

/// A quotient rounded toward zero is bounded by any `b` with `|a| <= b * d`.
pub proof fn lemma_trunc_div_le(a: int, d: int, b: int)
    requires
        d > 0,
        b >= 0,
        magnitude(a) <= b * d,
    ensures
        magnitude(trunc_div(a, d)) <= b,
{
    lemma_trunc_div(a, d);
    let q = magnitude(trunc_div(a, d));
    let p = magnitude(a);
    let t = trunc_div(a, d);
    assert((-t) * d == -(t * d)) by (nonlinear_arith);
    assert(q * d <= p);
    assert(q <= b) by (nonlinear_arith)
        requires
            q * d <= b * d,
            d > 0,
    ;
}

/// There is only one rounded-down square root.
pub proof fn lemma_floor_sqrt_unique(n: int, r1: int, r2: int)
    requires
        is_floor_sqrt(n, r1),
        is_floor_sqrt(n, r2),
    ensures
        r1 == r2,
{
    if r1 < r2 {
        assert((r1 + 1) * (r1 + 1) <= r2 * r2) by (nonlinear_arith)
            requires
                0 <= r1,
                r1 + 1 <= r2,
        ;
    } else if r2 < r1 {
        assert((r2 + 1) * (r2 + 1) <= r1 * r1) by (nonlinear_arith)
            requires
                0 <= r2,
                r2 + 1 <= r1,
        ;
    }
}

/// Any witness of `is_floor_sqrt` is the value of `floor_sqrt`.
pub proof fn lemma_floor_sqrt_is(n: int, r: int)
    requires
        is_floor_sqrt(n, r),
    ensures
        floor_sqrt(n) == r,
{
    lemma_floor_sqrt_unique(n, r, floor_sqrt(n));
}

/// Every natural number has a rounded-down square root.
pub proof fn lemma_floor_sqrt_exists(n: int)
    requires
        n >= 0,
    ensures
        is_floor_sqrt(n, floor_sqrt(n)),
    decreases n,
{
    if n == 0 {
        assert(is_floor_sqrt(0, 0));
    } else {
        lemma_floor_sqrt_exists(n - 1);
        let r = floor_sqrt(n - 1);
        if n < (r + 1) * (r + 1) {
            assert(is_floor_sqrt(n, r));
        } else {
            assert((r + 2) * (r + 2) > (r + 1) * (r + 1)) by (nonlinear_arith)
                requires
                    r >= 0,
            ;
            assert(is_floor_sqrt(n, r + 1));
        }
    }
}

/// The square root is monotonic: a bound on `n` by a square bounds the root.
pub proof fn lemma_floor_sqrt_le(n: int, r: int, b: int)
    requires
        is_floor_sqrt(n, r),
        0 <= b,
        n <= b * b,
    ensures
        r <= b,
{
    if r > b {
        assert((b + 1) * (b + 1) <= r * r) by (nonlinear_arith)
            requires
                0 <= b,
                b + 1 <= r,
        ;
        assert(b * b < (b + 1) * (b + 1)) by (nonlinear_arith)
            requires
                0 <= b,
        ;
    }
}

/// The integer square root, rounded down, by bisection.
pub fn isqrt(n: u128) -> (r: u64)
    requires
        n < 0x4000_0000_0000_0000_0000_0000_0000_0000u128,
    ensures
        is_floor_sqrt(n as int, r as int),
        r as int == floor_sqrt(n as int),
        r < 0x8000_0000_0000_0000u64,
{
    let mut lo: u128 = 0;
    let mut hi: u128 = 0x8000_0000_0000_0000u128;
    assert(0x8000_0000_0000_0000u128 * 0x8000_0000_0000_0000u128
        == 0x4000_0000_0000_0000_0000_0000_0000_0000u128) by (nonlinear_arith);
    while hi - lo > 1
        invariant
            lo < hi <= 0x8000_0000_0000_0000u128,
            lo * lo <= n < hi * hi,
        decreases hi - lo,
    {
        let mid: u128 = lo + (hi - lo) / 2;
        assert(mid * mid <= 0x8000_0000_0000_0000u128 * 0x8000_0000_0000_0000u128)
            by (nonlinear_arith)
            requires
                0 <= mid <= 0x8000_0000_0000_0000u128,
        ;
        if mid * mid <= n {
            lo = mid;
        } else {
            hi = mid;
        }
    }
    proof {
        lemma_floor_sqrt_is(n as int, lo as int);
    }
    lo as u64
}

/// `a * b / d`, the product taken in 128 bits and the quotient rounded toward
/// zero.
pub fn mul_div(a: i64, b: i64, d: i64) -> (r: i64)
    requires
        d > 0,
        magnitude(trunc_div(a * b, d as int)) <= i64::MAX,
    ensures
        r == trunc_div(a * b, d as int),
{
    assert(-0x4000_0000_0000_0000_0000_0000_0000_0000 <= a * b
        <= 0x4000_0000_0000_0000_0000_0000_0000_0000) by (nonlinear_arith)
        requires
            -0x8000_0000_0000_0000 <= a <= 0x8000_0000_0000_0000,
            -0x8000_0000_0000_0000 <= b <= 0x8000_0000_0000_0000,
    ;
    let p: i128 = (a as i128) * (b as i128);
    let q: i128 = p / (d as i128);
    q as i64
}

/// The smaller of `a * b * c / d` and `cap`, for scalars that are not
/// negative: the products are taken in 128 bits and the quotient is rounded
/// down, so the result is in range whatever the quotient.
pub fn mul_mul_div_capped(a: i64, b: i64, c: i64, d: i64, cap: i64) -> (r: i64)
    requires
        a >= 0,
        b >= 0,
        c >= 0,
        d > 0,
        cap >= 0,
        a * b <= i64::MAX,
    ensures
        r == if trunc_div(a * b * c, d as int) > cap {
            cap as int
        } else {
            trunc_div(a * b * c, d as int)
        },
        0 <= r <= cap,
{
    assert(0 <= a * b) by (nonlinear_arith)
        requires
            a >= 0,
            b >= 0,
    ;
    let ab: i128 = (a as i128) * (b as i128);
    assert(0 <= ab * c <= 0x4000_0000_0000_0000_0000_0000_0000_0000) by (nonlinear_arith)
        requires
            0 <= ab <= 0x8000_0000_0000_0000,
            0 <= c <= 0x8000_0000_0000_0000,
    ;
    let p: i128 = ab * (c as i128);
    let q: i128 = p / (d as i128);
    proof {
        lemma_trunc_div(p as int, d as int);
    }
    if q > cap as i128 {
        cap
    } else {
        q as i64
    }
}

/// A product is bounded by the product of the bounds of its factors.
pub proof fn lemma_product_bound(a: int, b: int, bound_a: int, bound_b: int)
    requires
        magnitude(a) <= bound_a,
        magnitude(b) <= bound_b,
    ensures
        magnitude(a * b) <= bound_a * bound_b,
        -(bound_a * bound_b) <= a * b <= bound_a * bound_b,
{
    let p = magnitude(a);
    let q = magnitude(b);
    assert(p * q <= bound_a * bound_b) by (nonlinear_arith)
        requires
            0 <= p <= bound_a,
            0 <= q <= bound_b,
    ;
    assert(magnitude(a * b) == p * q) by (nonlinear_arith)
        requires
            p == magnitude(a),
            q == magnitude(b),
    ;
}

/// A square is not negative.
pub proof fn lemma_square_nonnegative(a: int)
    ensures
        a * a >= 0,
{
    assert(a * a >= 0) by (nonlinear_arith);
}

/// `c * k / den` is at most `k` in magnitude when `|c| <= den`.
pub proof fn lemma_fraction_bound(c: int, den: int, k: int)
    requires
        den > 0,
        k >= 0,
        magnitude(c) <= den,
    ensures
        magnitude(trunc_div(c * k, den)) <= k,
{
    lemma_product_bound(c, k, den, k);
    assert(den * k == k * den) by (nonlinear_arith);
    lemma_trunc_div_le(c * k, den, k);
}

/// If `c * c <= n` then `|c|` is at most the rounded-down root of `n`.
pub proof fn lemma_root_dominates(c: int, n: int, r: int)
    requires
        is_floor_sqrt(n, r),
        c * c <= n,
    ensures
        magnitude(c) <= r,
{
    let m = magnitude(c);
    assert(m * m == c * c) by (nonlinear_arith)
        requires
            m == magnitude(c),
    ;
    if m > r {
        assert((r + 1) * (r + 1) <= m * m) by (nonlinear_arith)
            requires
                0 <= r,
                r + 1 <= m,
        ;
    }
}

/// A part of a component is no larger than the component and has its sign.
pub proof fn lemma_part_of(c: int, travelled: int, length: int)
    requires
        0 <= travelled <= length,
        length > 0,
    ensures
        magnitude(trunc_div(c * travelled, length)) <= magnitude(c),
        c >= 0 ==> trunc_div(c * travelled, length) >= 0,
        c <= 0 ==> trunc_div(c * travelled, length) <= 0,
{
    lemma_product_bound(c, travelled, magnitude(c), length);
    lemma_trunc_div_le(c * travelled, length, magnitude(c));
    lemma_trunc_div(c * travelled, length);
    assert(c >= 0 ==> c * travelled >= 0) by (nonlinear_arith)
        requires
            travelled >= 0,
    ;
    assert(c <= 0 ==> c * travelled <= 0) by (nonlinear_arith)
        requires
            travelled >= 0,
    ;
}

} // verus!
