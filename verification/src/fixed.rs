//! Fixed-point numbers.
//!
//! A quantity `q` is stored as the integer `q * ONE`, so the resolution is one
//! millionth. Whatever the engine stores is kept within `[-LIMIT, LIMIT]`:
//! operations compute exactly in a wider type, round towards zero and then
//! saturate at the ends of that range.

use vstd::prelude::*;

verus! {

/// The fixed-point representation of 1.
pub const ONE: i64 = 1_000_000;

/// The largest magnitude a stored quantity can have (a million units).
pub const LIMIT: i64 = 1_000_000_000_000;

/// `v` is a quantity the engine may store.
pub open spec fn in_range(v: int) -> bool {
    -LIMIT <= v <= LIMIT
}

/// The value of the range nearest to `v`.
pub open spec fn clamp(v: int) -> int {
    if v < -LIMIT {
        -(LIMIT as int)
    } else if v > LIMIT {
        LIMIT as int
    } else {
        v
    }
}

/// The larger of two numbers.
pub open spec fn larger(a: int, b: int) -> int {
    if a >= b {
        a
    } else {
        b
    }
}

/// The smaller of two numbers.
pub open spec fn smaller(a: int, b: int) -> int {
    if a <= b {
        a
    } else {
        b
    }
}

/// The magnitude of `v`.
pub open spec fn magnitude(v: int) -> int {
    if v < 0 {
        -v
    } else {
        v
    }
}

/// The quotient of `n` by a positive `d`, rounded towards zero.
pub open spec fn quotient(n: int, d: int) -> int {
    if n >= 0 {
        n / d
    } else {
        -((-n) / d)
    }
}

/// The fixed-point sum of `a` and `b`.
pub open spec fn plus(a: int, b: int) -> int {
    clamp(a + b)
}

/// The fixed-point difference of `a` and `b`.
pub open spec fn minus(a: int, b: int) -> int {
    clamp(a - b)
}

/// The fixed-point product of `a` and `b`.
pub open spec fn times(a: int, b: int) -> int {
    clamp(quotient(a * b, ONE as int))
}

/// The fixed-point quotient of `a` by a positive `b`.
pub open spec fn over(a: int, b: int) -> int {
    clamp(quotient(a * ONE, b))
}

/// `r` is the square root of `n`, rounded down.
pub open spec fn is_root(r: int, n: int) -> bool {
    0 <= r && r * r <= n < (r + 1) * (r + 1)
}

/// The square root of a non-negative `n`, rounded down.
pub open spec fn root(n: int) -> int {
    choose|r: int| is_root(r, n)
}

/// Whether `v` is a quantity the engine may store.
pub fn within(v: i64) -> (yes: bool)
    ensures
        yes == in_range(v as int),
{
    -LIMIT <= v && v <= LIMIT
}

/// Brings a wide intermediate result back into the range.
pub fn saturate(v: i128) -> (r: i64)
    ensures
        r == clamp(v as int),
        in_range(r as int),
{
    if v < -(LIMIT as i128) {
        -LIMIT
    } else if v > LIMIT as i128 {
        LIMIT
    } else {
        v as i64
    }
}

/// Adds two quantities.
pub fn sum(a: i64, b: i64) -> (r: i64)
    ensures
        r == plus(a as int, b as int),
        in_range(r as int),
{
    saturate(a as i128 + b as i128)
}

/// Subtracts `b` from `a`.
pub fn difference(a: i64, b: i64) -> (r: i64)
    ensures
        r == minus(a as int, b as int),
        in_range(r as int),
{
    saturate(a as i128 - b as i128)
}

/// Multiplies two quantities.
pub fn product(a: i64, b: i64) -> (r: i64)
    ensures
        r == times(a as int, b as int),
        in_range(r as int),
{
    let wide: i128 = wide_product(a as i128, b as i128);
    saturate(wide / (ONE as i128))
}

/// Divides `a` by a positive `b`.
pub fn ratio(a: i64, b: i64) -> (r: i64)
    requires
        b > 0,
    ensures
        r == over(a as int, b as int),
        in_range(r as int),
{
    let wide: i128 = wide_product(a as i128, ONE as i128);
    saturate(wide / (b as i128))
}

/// The exact product of two values that each fit in 64 bits.
pub fn wide_product(a: i128, b: i128) -> (r: i128)
    requires
        -0x8000_0000_0000_0000 <= a <= 0x8000_0000_0000_0000,
        -0x8000_0000_0000_0000 <= b <= 0x8000_0000_0000_0000,
    ensures
        r == a * b,
{
    proof {
        lemma_product_bound(a as int, b as int, 0x8000_0000_0000_0000);
    }
    a * b
}

/// The square root of `n`, rounded down, for an `n` known to be at most
/// `bound * bound`.
pub fn square_root(n: i128, bound: i64) -> (r: i64)
    requires
        0 <= bound,
        0 <= n <= bound * bound,
    ensures
        r == root(n as int),
        is_root(r as int, n as int),
        r <= bound,
{
    let mut low: i64 = 0;
    let mut high: i64 = bound;
    proof {
        lemma_square_grows(bound as int, bound + 1);
    }
    while low < high
        invariant
            0 <= low <= high <= bound,
            low * low <= n < (high + 1) * (high + 1),
        decreases high - low,
    {
        let middle: i64 = high - (high - low) / 2;
        let square: i128 = wide_product(middle as i128, middle as i128);
        if square <= n {
            low = middle;
        } else {
            high = middle - 1;
        }
    }
    proof {
        lemma_root_unique(low as int, root(n as int), n as int);
    }
    low
}

/// Squaring keeps the order of non-negative numbers.
pub proof fn lemma_square_grows(a: int, b: int)
    requires
        0 <= a < b,
    ensures
        a * a < b * b,
{
    assert(a * a < b * b) by (nonlinear_arith)
        requires
            0 <= a < b,
    ;
}

/// A number has at most one rounded-down square root.
pub proof fn lemma_root_unique(a: int, b: int, n: int)
    requires
        is_root(a, n),
    ensures
        is_root(root(n), n),
        is_root(b, n) ==> a == b,
        root(n) == a,
{
    if is_root(b, n) && a != b {
        if a < b {
            lemma_square_grows(a, b);
            assert((a + 1) * (a + 1) <= b * b) by (nonlinear_arith)
                requires
                    0 <= a + 1 <= b,
            ;
        } else {
            assert((b + 1) * (b + 1) <= a * a) by (nonlinear_arith)
                requires
                    0 <= b + 1 <= a,
            ;
        }
    }
    let c = root(n);
    if a != c {
        if a < c {
            assert((a + 1) * (a + 1) <= c * c) by (nonlinear_arith)
                requires
                    0 <= a + 1 <= c,
            ;
        } else {
            assert((c + 1) * (c + 1) <= a * a) by (nonlinear_arith)
                requires
                    0 <= c + 1 <= a,
            ;
        }
    }
}

/// A product is no larger in magnitude than the square of a common bound.
pub proof fn lemma_product_bound(a: int, b: int, bound: int)
    requires
        -bound <= a <= bound,
        -bound <= b <= bound,
    ensures
        -(bound * bound) <= a * b <= bound * bound,
{
    assert(-(bound * bound) <= a * b <= bound * bound) by (nonlinear_arith)
        requires
            -bound <= a <= bound,
            -bound <= b <= bound,
    ;
}

} // verus!
