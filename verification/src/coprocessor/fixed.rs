//! Signed Q15 fixed-point arithmetic shared by the math coprocessors.
use vstd::prelude::*;

verus! {

/// `x` clamped into the `i16` range.
pub open spec fn clamp16(x: int) -> i16 {
    if x < -32768 {
        -32768i16
    } else if x > 32767 {
        32767
    } else {
        x as i16
    }
}

/// `x` clamped into the symmetric range `-32767..=32767`.
pub open spec fn clamp15(x: int) -> i16 {
    if x < -32767 {
        -32767i16
    } else if x > 32767 {
        32767
    } else {
        x as i16
    }
}

/// Q15 product: the full product shifted right by 15 (rounding toward negative infinity),
/// truncated to 16 bits.
pub open spec fn q15(a: i16, b: i16) -> i16 {
    ((a as int * b as int) / 32768) as i16
}

/// Saturating 16-bit addition.
pub open spec fn sat_add(a: i16, b: i16) -> i16 {
    clamp16(a + b)
}

/// Saturating 16-bit subtraction.
pub open spec fn sat_sub(a: i16, b: i16) -> i16 {
    clamp16(a - b)
}

/// Two's-complement 16-bit negation (`-32768` stays `-32768`).
pub open spec fn wrap_neg(a: i16) -> i16 {
    (-(a as int)) as i16
}

/// Q15 product of two 16-bit values.
pub fn q15_mul(left: i16, right: i16) -> (r: i16)
    ensures
        r == q15(left, right),
{
    assert(-0x4000_0000 <= left * right <= 0x4000_0000) by (nonlinear_arith)
        requires
            -32768 <= left <= 32767,
            -32768 <= right <= 32767,
    ;
    let product: i32 = left as i32 * right as i32;
    let shifted: i32 = product >> 15i32;
    assert(shifted == product / 32768) by (bit_vector)
        requires
            shifted == product >> 15i32,
    ;
    shifted as i16
}

/// Clamp a 32-bit value into the `i16` range.
pub fn clamp_i16(x: i32) -> (r: i16)
    ensures
        r == clamp16(x as int),
{
    if x < -32768 {
        -32768i16
    } else if x > 32767 {
        32767
    } else {
        x as i16
    }
}

/// Saturating 16-bit addition.
pub fn saturating_add16(a: i16, b: i16) -> (r: i16)
    ensures
        r == sat_add(a, b),
{
    clamp_i16(a as i32 + b as i32)
}

/// Saturating 16-bit subtraction.
pub fn saturating_sub16(a: i16, b: i16) -> (r: i16)
    ensures
        r == sat_sub(a, b),
{
    clamp_i16(a as i32 - b as i32)
}

/// Two's-complement 16-bit negation.
pub fn wrapping_neg16(a: i16) -> (r: i16)
    ensures
        r == wrap_neg(a),
{
    (-(a as i32)) as i16
}

/// `n` is the nearest integer to the square root of `r >= 0` (never a tie for integers).
pub open spec fn is_rounded_sqrt(r: int, n: int) -> bool {
    &&& n >= 0
    &&& (n == 0 ==> r == 0)
    &&& (n > 0 ==> n * n - n < r)
    &&& r <= n * n + n
}

/// The rounded square root is unique.
pub proof fn lemma_rounded_sqrt_unique(r: int, n: int, m: int)
    requires
        is_rounded_sqrt(r, n),
        is_rounded_sqrt(r, m),
    ensures
        n == m,
{
    if n < m {
        assert(n * n + n <= m * m - m) by (nonlinear_arith)
            requires
                0 <= n < m,
        ;
    } else if m < n {
        assert(m * m + m <= n * n - n) by (nonlinear_arith)
            requires
                0 <= m < n,
        ;
    }
}

/// Nearest integer to the square root of a non-negative value below 2^31.
pub fn rounded_sqrt(r: i32) -> (n: i32)
    requires
        r >= 0,
    ensures
        is_rounded_sqrt(r as int, n as int),
        n <= 46341,
{
    let mut lo: i32 = 0;
    let mut hi: i32 = 46341;
    assert(46341 * 46341 > 0x7FFF_FFFF);
    while hi - lo > 1
        invariant
            0 <= lo < hi <= 46341,
            lo * lo <= r,
            r < hi * hi,
        decreases hi - lo,
    {
        let mid: i32 = lo + (hi - lo) / 2;
        assert(mid * mid <= 46341 * 46341) by (nonlinear_arith)
            requires
                0 <= mid <= 46341,
        ;
        let square: i64 = mid as i64 * mid as i64;
        if square <= r as i64 {
            lo = mid;
        } else {
            hi = mid;
        }
    }
    assert(hi == lo + 1);
    assert((lo + 1) * (lo + 1) == lo * lo + 2 * lo + 1) by (nonlinear_arith);
    assert(lo * lo <= 46341 * 46341) by (nonlinear_arith)
        requires
            0 <= lo <= 46341,
    ;
    let lo_square: i64 = lo as i64 * lo as i64;
    if r as i64 - lo_square > lo as i64 {
        assert(is_rounded_sqrt(r as int, lo + 1)) by (nonlinear_arith)
            requires
                r - lo * lo > lo,
                r < (lo + 1) * (lo + 1),
                lo >= 0,
        ;
        lo + 1
    } else {
        assert(is_rounded_sqrt(r as int, lo as int)) by (nonlinear_arith)
            requires
                r - lo * lo <= lo,
                lo * lo <= r,
                lo >= 0,
        ;
        lo
    }
}

} // verus!
