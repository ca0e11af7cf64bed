//! Fixed-point arithmetic: every quantity is an `i64` count of `1 / SCALE` units.
//!
//! A raw value `a` stands for the number `a / SCALE`. Sums and differences of
//! raw values are raw values; a product or a square root needs one rescaling,
//! which rounds towards negative infinity.

use vstd::prelude::*;

verus! {

/// Number of raw units in one whole unit.
pub const SCALE: i64 = 1_000_000_000;

/// The raw product of two raw values: `(a / SCALE) * (b / SCALE)`, in raw
/// units, rounded down.
pub open spec fn scaled_product(a: int, b: int) -> int {
    (a * b) / (SCALE as int)
}

/// `r` is the integer part of the square root of `n`.
pub open spec fn is_floor_sqrt(n: int, r: int) -> bool {
    0 <= r && r * r <= n < (r + 1) * (r + 1)
}

/// The integer part of the square root of a non-negative `n`.
pub open spec fn floor_sqrt(n: int) -> int {
    choose|r: int| is_floor_sqrt(n, r)
}

/// The raw square root of a non-negative raw value: `sqrt(x / SCALE)`, in
/// raw units, rounded down.
pub open spec fn scaled_sqrt(x: int) -> int {
    floor_sqrt(x * (SCALE as int))
}

/// The size of a mathematical integer.
pub open spec fn magnitude(x: int) -> int {
    if x < 0 {
        -x
    } else {
        x
    }
}

/// Whether a mathematical integer can be held in an `i64`.
pub open spec fn fits_i64(x: int) -> bool {
    i64::MIN <= x <= i64::MAX
}

/// Finds the integer square root by counting up.
proof fn lemma_floor_sqrt_witness(n: int) -> (r: int)
    requires
        n >= 0,
    ensures
        is_floor_sqrt(n, r),
    decreases n,
{
    if n == 0 {
        0
    } else {
        let below = lemma_floor_sqrt_witness(n - 1);
        let next = below + 1;
        if next * next <= n {
            assert(n < (next + 1) * (next + 1)) by (nonlinear_arith)
                requires
                    next >= 0,
                    n - 1 < next * next,
            ;
            next
        } else {
            below
        }
    }
}

/// Every non-negative integer has an integer square root, and `floor_sqrt`
/// names it.
pub proof fn lemma_floor_sqrt_exists(n: int)
    requires
        n >= 0,
    ensures
        is_floor_sqrt(n, floor_sqrt(n)),
{
    lemma_floor_sqrt_witness(n);
}

/// The integer square root is unique.
pub proof fn lemma_floor_sqrt_unique(n: int, r: int)
    requires
        is_floor_sqrt(n, r),
    ensures
        r == floor_sqrt(n),
{
    let s = floor_sqrt(n);
    if r < s {
        assert((r + 1) * (r + 1) <= s * s) by (nonlinear_arith)
            requires
                0 <= r,
                r + 1 <= s,
        ;
    } else if s < r {
        assert((s + 1) * (s + 1) <= r * r) by (nonlinear_arith)
            requires
                0 <= s,
                s + 1 <= r,
        ;
    }
}

/// The raw square root of a non-negative raw value is non-negative.
pub proof fn lemma_scaled_sqrt_nonnegative(x: int)
    requires
        x >= 0,
    ensures
        scaled_sqrt(x) >= 0,
{
    assert(x * (SCALE as int) >= 0) by (nonlinear_arith)
        requires
            x >= 0,
            SCALE as int > 0,
    ;
    lemma_floor_sqrt_exists(x * (SCALE as int));
}

/// Scaling a value by a factor of at most one in size does not make it
/// larger in size.
pub proof fn lemma_scaled_product_unit(factor: int, value: int)
    requires
        -SCALE <= factor <= SCALE,
        value >= 0,
    ensures
        -value <= scaled_product(factor, value) <= value,
{
    let product = factor * value;
    assert(-1_000_000_000 * value <= product <= 1_000_000_000 * value) by (nonlinear_arith)
        requires
            product == factor * value,
            -1_000_000_000 <= factor <= 1_000_000_000,
            value >= 0,
    ;
}

/// The size of a product is bounded through the size of one factor, up to
/// the one unit that rounding down may add below zero.
pub proof fn lemma_scaled_product_bounded(value: int, bound: int, other: int)
    requires
        -bound <= value <= bound,
        other >= 0,
    ensures
        -(scaled_product(bound, other) + 1) <= scaled_product(value, other) <= scaled_product(
            bound,
            other,
        ),
        scaled_product(bound, other) >= 0,
{
    assert(-(bound * other) <= value * other <= bound * other && bound * other >= 0)
        by (nonlinear_arith)
        requires
            -bound <= value <= bound,
            other >= 0,
    ;
}

/// A quotient by a positive divisor is no larger in size than the dividend.
pub proof fn lemma_floor_div_bounds(num: int, den: int)
    requires
        den > 0,
    ensures
        num >= 0 ==> 0 <= num / den <= num,
        num < 0 ==> num <= num / den < 0,
{
    let q = num / den;
    let r = num % den;
    assert(num == den * q + r && 0 <= r < den) by {
        vstd::arithmetic::div_mod::lemma_fundamental_div_mod(num, den);
        vstd::arithmetic::div_mod::lemma_mod_bound(num, den);
    }
    if num >= 0 {
        assert(0 <= q <= num) by (nonlinear_arith)
            requires
                num == den * q + r,
                0 <= r < den,
                num >= 0,
                den > 0,
        ;
    } else {
        assert(num <= q < 0) by (nonlinear_arith)
            requires
                num == den * q + r,
                0 <= r < den,
                num < 0,
                den > 0,
        ;
    }
}

/// Quotient rounded towards negative infinity, for a positive divisor.
pub fn floor_div(num: i128, den: i128) -> (q: i128)
    requires
        den > 0,
    ensures
        q == num as int / den as int,
{
    proof {
        lemma_floor_div_bounds(num as int, den as int);
    }
    match num.checked_div_euclid(den) {
        Some(q) => q,
        None => 0,
    }
}

/// Multiplies two raw values and rescales, in a width that always holds the
/// result.
pub fn mul_scaled_wide(a: i64, b: i64) -> (r: i128)
    ensures
        r == scaled_product(a as int, b as int),
        -0x4000_0000_0000_0000_0000_0000_0000_0000 <= r <= 0x4000_0000_0000_0000_0000_0000_0000_0000,
{
    assert(-0x4000_0000_0000_0000_0000_0000_0000_0000 <= (a as int) * (b as int)
        <= 0x4000_0000_0000_0000_0000_0000_0000_0000) by (nonlinear_arith)
        requires
            -0x8000_0000_0000_0000 <= a as int <= 0x8000_0000_0000_0000,
            -0x8000_0000_0000_0000 <= b as int <= 0x8000_0000_0000_0000,
    ;
    let wide: i128 = (a as i128) * (b as i128);
    proof {
        lemma_floor_div_bounds(wide as int, SCALE as int);
    }
    floor_div(wide, SCALE as i128)
}

/// The integer part of the square root.
pub fn isqrt(n: u128) -> (r: u64)
    ensures
        r == floor_sqrt(n as int),
{
    let mut lo: u128 = 0;
    let mut hi: u128 = 0x1_0000_0000_0000_0000;
    while hi - lo > 1
        invariant
            lo < hi <= 0x1_0000_0000_0000_0000,
            lo * lo <= n < hi * hi,
        decreases hi - lo,
    {
        let mid: u128 = lo + (hi - lo) / 2;
        assert(mid * mid <= u128::MAX) by (nonlinear_arith)
            requires
                0 <= mid < 0x1_0000_0000_0000_0000,
        ;
        if mid * mid <= n {
            lo = mid;
        } else {
            hi = mid;
        }
    }
    proof {
        lemma_floor_sqrt_unique(n as int, lo as int);
    }
    lo as u64
}

/// The square root of a non-negative raw value, as a raw value.
pub fn sqrt_scaled(x: i64) -> (r: i64)
    requires
        x >= 0,
    ensures
        r == scaled_sqrt(x as int),
        0 <= r,
{
    assert(0 <= (x as int) * (SCALE as int) <= 0x2000_0000_0000_0000_0000_0000) by (nonlinear_arith)
        requires
            0 <= x as int <= 0x8000_0000_0000_0000,
            SCALE as int == 1_000_000_000,
    ;
    let wide: u128 = (x as u128) * (SCALE as u128);
    let root: u64 = isqrt(wide);
    proof {
        lemma_floor_sqrt_exists(wide as int);
        let s = root as int;
        if s >= 0x4000_0000_0000_0000 {
            assert(s * s >= 0x4000_0000_0000_0000int * 0x4000_0000_0000_0000int) by (nonlinear_arith)
                requires
                    s >= 0x4000_0000_0000_0000,
            ;
            assert(0x4000_0000_0000_0000int * 0x4000_0000_0000_0000int > 0x2000_0000_0000_0000_0000_0000)
                by (nonlinear_arith);
        }
    }
    root as i64
}

} // verus!
