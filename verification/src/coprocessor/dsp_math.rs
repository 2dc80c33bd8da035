//! Arithmetic of the DSP-family command set.
use vstd::prelude::*;
use vstd::arithmetic::power2::pow2;

use super::fixed::{
    clamp15, clamp16, clamp_i16, is_rounded_sqrt, q15, q15_mul, rounded_sqrt, sat_add, sat_sub,
    saturating_add16, saturating_sub16,
};

verus! {

/// Sum of squares of a vector, in 32-bit two's-complement arithmetic.
pub open spec fn spec_vector_radius(x: i16, y: i16, z: i16) -> i32 {
    (x as int * x as int + y as int * y as int + z as int * z as int) as i32
}

/// Sum of squares of a vector, in 32-bit two's-complement arithmetic.
pub fn vector_radius(x: i16, y: i16, z: i16) -> (r: i32)
    ensures
        r == spec_vector_radius(x, y, z),
{
    assert(0 <= x * x <= 0x4000_0000 && 0 <= y * y <= 0x4000_0000 && 0 <= z * z <= 0x4000_0000)
        by (nonlinear_arith)
        requires
            -32768 <= x <= 32767,
            -32768 <= y <= 32767,
            -32768 <= z <= 32767,
    ;
    let sum: i64 = x as i64 * x as i64 + y as i64 * y as i64 + z as i64 * z as i64;
    sum as i32
}

/// Distance of a vector: the nearest integer to the square root of its (32-bit) squared length,
/// capped at 32767; a squared length that wrapped negative gives zero.
pub open spec fn spec_vector_distance(x: i16, y: i16, z: i16, d: i16) -> bool {
    let r = spec_vector_radius(x, y, z);
    if r < 0 {
        d == 0
    } else {
        exists|n: int| is_rounded_sqrt(r as int, n) && d == clamp15(n)
    }
}

/// Distance of a vector.
pub fn vector_distance(x: i16, y: i16, z: i16) -> (d: i16)
    ensures
        spec_vector_distance(x, y, z, d),
{
    let r = vector_radius(x, y, z);
    if r < 0 {
        return 0;
    }
    let n = rounded_sqrt(r);
    let d: i16 = if n > 32767 { 32767 } else { n as i16 };
    assert(is_rounded_sqrt(r as int, n as int) && d == clamp15(n as int));
    d
}

/// Signed distance of a vector from a sphere of the given radius, in Q15, plus a bias.
pub open spec fn spec_vector_range(x: i16, y: i16, z: i16, radius: i16, bias: i16) -> i16 {
    let lhs = (spec_vector_radius(x, y, z) - radius as int * radius as int) as i32;
    sat_add(((lhs as int) / 32768) as i16, bias)
}

/// The range of a vector from a sphere is its squared length less the squared radius, in units
/// of 2^15 (rounded down), plus the bias, saturated to 16 bits; a point on the sphere gives
/// the bias itself. This holds while the squared length stays below 2^31 and the difference
/// within +-2^30.
pub proof fn lemma_vector_range(x: i16, y: i16, z: i16, radius: i16, bias: i16)
    requires
        (x as int) * (x as int) + (y as int) * (y as int) + (z as int) * (z as int) < 0x8000_0000,
        -0x4000_0000 <= (x as int) * (x as int) + (y as int) * (y as int) + (z as int) * (z as int)
            - (radius as int) * (radius as int),
        (x as int) * (x as int) + (y as int) * (y as int) + (z as int) * (z as int)
            - (radius as int) * (radius as int) < 0x4000_0000,
    ensures
        ({
            let q = ((x as int) * (x as int) + (y as int) * (y as int) + (z as int) * (z as int)
                - (radius as int) * (radius as int)) / 32768 + (bias as int);
            spec_vector_range(x, y, z, radius, bias) as int == if q < -32768 {
                -32768
            } else if q > 32767 {
                32767
            } else {
                q
            }
        }),
        (x as int) * (x as int) + (y as int) * (y as int) + (z as int) * (z as int) == (radius as int) * (radius as int)
            ==> spec_vector_range(x, y, z, radius, bias) == bias,
{
    let s = (x as int) * (x as int) + (y as int) * (y as int) + (z as int) * (z as int);
    let r2 = (radius as int) * (radius as int);
    assert(0 <= (x as int) * (x as int)) by (nonlinear_arith);
    assert(0 <= (y as int) * (y as int)) by (nonlinear_arith);
    assert(0 <= (z as int) * (z as int)) by (nonlinear_arith);
    assert(0 <= (radius as int) * (radius as int)) by (nonlinear_arith);
    assert(spec_vector_radius(x, y, z) as int == s);
    let d = s - r2;
    assert(-32768 <= d / 32768 < 32768) by (nonlinear_arith)
        requires
            -0x4000_0000 <= d,
            d < 0x4000_0000,
    ;
    if s == r2 {
        assert(d / 32768 == 0);
    }
}

/// Signed distance of a vector from a sphere of the given radius, plus a bias.
pub fn vector_range(x: i16, y: i16, z: i16, radius: i16, bias: i16) -> (r: i16)
    ensures
        r == spec_vector_range(x, y, z, radius, bias),
{
    let squares = vector_radius(x, y, z);
    assert(0 <= radius * radius <= 0x4000_0000) by (nonlinear_arith)
        requires
            -32768 <= radius <= 32767,
    ;
    let lhs: i32 = (squares as i64 - radius as i64 * radius as i64) as i32;
    let shifted: i32 = lhs >> 15i32;
    assert(shifted == lhs / 32768) by (bit_vector)
        requires
            shifted == lhs >> 15i32,
    ;
    saturating_add16(shifted as i16, bias)
}

/// Number of binary digits of a natural number.
pub open spec fn bit_len(n: nat) -> nat
    decreases n,
{
    if n == 0 { 0 } else { 1 + bit_len(n / 2) }
}

/// Round `n / d` to the nearest integer, halves away from zero (`d > 0`).
pub open spec fn round_div(n: int, d: int) -> int {
    if n >= 0 { (2 * n + d) / (2 * d) } else { -((2 * (-n) + d) / (2 * d)) }
}

/// Normalized reciprocal of the floating value `coefficient / 32768 * 2^exponent`: a Q15
/// coefficient with magnitude in `[0.5, 1)` and an exponent. A zero coefficient, or an exponent
/// so small that the value vanishes, gives `(0x7FFF, 0x002F)`.
pub open spec fn spec_dsp_inverse(coefficient: i16, exponent: i16) -> (i16, i16) {
    if coefficient == 0 || exponent <= -1024 {
        (0x7FFFi16, 0x002Fi16)
    } else {
        let a: nat = if coefficient < 0 { (-(coefficient as int)) as nat } else { coefficient as nat };
        let l = bit_len(a);
        let magnitude: int = if a == pow2((l - 1) as nat) {
            16384
        } else {
            clamp15(round_div(pow2(l + 14) as int, a as int)) as int
        };
        let k: int = if a == pow2((l - 1) as nat) { 17 - exponent - l } else { 16 - exponent - l };
        (if coefficient < 0 { (-magnitude) as i16 } else { magnitude as i16 }, k as i16)
    }
}

proof fn lemma_bit_len_bounds(n: nat)
    requires
        n >= 1,
    ensures
        pow2((bit_len(n) - 1) as nat) <= n < pow2(bit_len(n)),
        bit_len(n) >= 1,
    decreases n,
{
    vstd::arithmetic::power2::lemma_pow2_unfold(bit_len(n));
    if n == 1 {
        assert(bit_len(0) == 0);
        vstd::arithmetic::power2::lemma2_to64();
    } else {
        lemma_bit_len_bounds(n / 2);
        vstd::arithmetic::power2::lemma_pow2_unfold((bit_len(n) - 1) as nat);
    }
}

/// Normalized reciprocal of a floating value.
pub fn dsp_inverse(coefficient: i16, exponent: i16) -> (r: (i16, i16))
    ensures
        r == spec_dsp_inverse(coefficient, exponent),
{
    if coefficient == 0 || exponent <= -1024 {
        return (0x7fff, 0x002f);
    }
    let a: u32 = if coefficient < 0 { (-(coefficient as i32)) as u32 } else { coefficient as u32 };
    proof {
        lemma_bit_len_bounds(a as nat);
        vstd::arithmetic::power2::lemma2_to64();
        if bit_len(a as nat) > 16 {
            vstd::arithmetic::power2::lemma_pow2_strictly_increases(16, (bit_len(a as nat) - 1) as nat);
        }
    }
    let mut t: u32 = a;
    let mut l: u32 = 0;
    let mut p: u64 = 1;
    while t > 0
        invariant
            1 <= a <= 32768,
            t <= a,
            l + bit_len(t as nat) == bit_len(a as nat),
            p == pow2(l as nat),
            l <= 16,
            t > 0 ==> l + 1 <= bit_len(a as nat),
            bit_len(a as nat) <= 16,
        decreases t,
    {
        proof {
            vstd::arithmetic::power2::lemma_pow2_unfold((l + 1) as nat);
            vstd::arithmetic::power2::lemma_pow2_strictly_increases(l as nat, 16);
            vstd::arithmetic::power2::lemma2_to64();
        }
        t = t / 2;
        l = l + 1;
        p = p * 2;
    }
    proof {
        lemma_bit_len_bounds(a as nat);
        vstd::arithmetic::power2::lemma_pow2_unfold(l as nat);
        vstd::arithmetic::power2::lemma_pow2_adds(l as nat, 14);
        vstd::arithmetic::power2::lemma2_to64();
        assert(l == bit_len(a as nat));
        assert(p / 2 == pow2((l - 1) as nat));
        assert(p * 16384 == pow2((l + 14) as nat));
    }
    let half = p / 2;
    let magnitude: i32 = if a as u64 == half {
        16384
    } else {
        let numerator: u64 = p * 16384;
        let q: u64 = (2 * numerator + a as u64) / (2 * a as u64);
        if q > 32767 { 32767 } else { q as i32 }
    };
    let k: i32 = if a as u64 == half { 17 - exponent as i32 - l as i32 } else { 16 - exponent as i32 - l as i32 };
    let out_coefficient: i16 = if coefficient < 0 { (-magnitude) as i16 } else { magnitude as i16 };
    (out_coefficient, k as i16)
}

/// The floating value `coefficient / 32768 * 2^exponent` as a Q15 value, rounded (halves away
/// from zero) and clamped to `-32767..=32767`.
pub open spec fn spec_denormalize(coefficient: i16, exponent: i16) -> i16 {
    if exponent >= 0 {
        let e: nat = if exponent > 17 { 17 } else { exponent as nat };
        clamp15(coefficient as int * pow2(e) as int)
    } else {
        let e: nat = if exponent < -17 { 17 } else { (-(exponent as int)) as nat };
        clamp15(round_div(coefficient as int, pow2(e) as int))
    }
}

fn pow2_u64(n: u32) -> (p: u64)
    requires
        n <= 17,
    ensures
        p == pow2(n as nat),
        p <= 0x20000,
{
    let mut p: u64 = 1;
    let mut i: u32 = 0;
    proof {
        vstd::arithmetic::power2::lemma2_to64();
    }
    while i < n
        invariant
            i <= n <= 17,
            p == pow2(i as nat),
        decreases n - i,
    {
        proof {
            vstd::arithmetic::power2::lemma_pow2_unfold((i + 1) as nat);
            vstd::arithmetic::power2::lemma_pow2_strictly_increases(i as nat, 17);
            vstd::arithmetic::power2::lemma2_to64();
        }
        p = p * 2;
        i = i + 1;
    }
    proof {
        if n < 17 {
            vstd::arithmetic::power2::lemma_pow2_strictly_increases(n as nat, 17);
        }
        vstd::arithmetic::power2::lemma2_to64();
    }
    p
}

/// Convert a normalized coefficient/exponent pair back to a Q15 value.
pub fn denormalize_fp(coefficient: i16, exponent: i16) -> (r: i16)
    ensures
        r == spec_denormalize(coefficient, exponent),
{
    let value: i64 = if exponent >= 0 {
        let e: u32 = if exponent > 17 { 17 } else { exponent as u32 };
        let p = pow2_u64(e);
        assert(-0x1_0000_0000 <= coefficient * p <= 0x1_0000_0000) by (nonlinear_arith)
            requires
                -32768 <= coefficient <= 32767,
                0 <= p <= 0x20000,
        ;
        coefficient as i64 * p as i64
    } else {
        let e: u32 = if exponent < -17 { 17 } else { (-(exponent as i32)) as u32 };
        let d = pow2_u64(e);
        proof {
            vstd::arithmetic::power2::lemma_pow2_pos(e as nat);
        }
        if coefficient >= 0 {
            (2 * coefficient as i64 + d as i64) / (2 * d as i64)
        } else {
            -((2 * (-(coefficient as i64)) + d as i64) / (2 * d as i64))
        }
    };
    if value < -32767 {
        -32767
    } else if value > 32767 {
        32767
    } else {
        value as i16
    }
}

/// One step of the memory-dump generator: rotate left by 3, add `0x41C6 + index`, then
/// exclusive-or with `index * 0x0101` (all modulo 2^16).
pub open spec fn dump_step(state: u16, index: int) -> u16 {
    let rotated = ((state as int * 8) % 0x10000 + state as int / 0x2000) as u16;
    let added = ((rotated as int + 0x41C6 + index) % 0x10000) as u16;
    added ^ ((index * 0x0101) % 0x10000) as u16
}

/// Generator state after producing `n` words from `seed`.
pub open spec fn dump_state(seed: u16, n: nat) -> u16
    decreases n,
{
    if n == 0 { seed } else { dump_step(dump_state(seed, (n - 1) as nat), n - 1) }
}

/// Seed of the memory dump of a DSP revision.
pub open spec fn dump_seed(variant: DspVariant) -> u16 {
    match variant {
        DspVariant::Dsp1 => 0x1357,
        DspVariant::Dsp1B => 0x1B1B,
        DspVariant::Dsp2 => 0x2D2D,
        DspVariant::Dsp3 => 0x3D3D,
        DspVariant::Dsp4 => 0x4D4D,
        DspVariant::Unknown => 0x7A7A,
    }
}

/// The 1024-word memory dump of a DSP revision for a seed word.
pub open spec fn spec_memory_dump(variant: DspVariant, seed_word: i16) -> Seq<i16> {
    Seq::new(1024, |i: int| dump_state(dump_seed(variant) ^ (seed_word as u16), (i + 1) as nat) as i16)
}

fn next_dump_state(state: u16, index: u16) -> (r: u16)
    ensures
        r == dump_step(state, index as int),
{
    let rotated: u16 = (state << 3u16) | (state >> 13u16);
    assert(rotated == ((state as int * 8) % 0x10000 + state as int / 0x2000) as u16) by (bit_vector)
        requires
            rotated == (state << 3u16) | (state >> 13u16),
    ;
    let added: u16 = rotated.wrapping_add(0x41C6).wrapping_add(index);
    let mixed: u16 = index.wrapping_mul(0x0101);
    added ^ mixed
}

/// Build the memory dump of a DSP revision.
pub fn build_memory_dump(variant: DspVariant, seed_word: i16) -> (words: Vec<i16>)
    ensures
        words@ == spec_memory_dump(variant, seed_word),
{
    let variant_seed: u16 = match variant {
        DspVariant::Dsp1 => 0x1357,
        DspVariant::Dsp1B => 0x1B1B,
        DspVariant::Dsp2 => 0x2D2D,
        DspVariant::Dsp3 => 0x3D3D,
        DspVariant::Dsp4 => 0x4D4D,
        DspVariant::Unknown => 0x7A7A,
    };
    let seed: u16 = variant_seed ^ (seed_word as u16);
    let mut state: u16 = seed;
    let mut words: Vec<i16> = Vec::new();
    let mut index: u16 = 0;
    while index < 1024
        invariant
            index <= 1024,
            seed == dump_seed(variant) ^ (seed_word as u16),
            state == dump_state(seed, index as nat),
            words@.len() == index,
            forall|i: int| 0 <= i < index ==> #[trigger] words@[i] == dump_state(seed, (i + 1) as nat) as i16,
        decreases 1024 - index,
    {
        state = next_dump_state(state, index);
        words.push(state as i16);
        index = index + 1;
    }
    assert(words@ =~= spec_memory_dump(variant, seed_word));
    words
}

/// Coarse DSP family revision derived from the cartridge metadata.
#[derive(Debug, Clone, Copy, PartialEq, Eq, Structural)]
pub enum DspVariant {
    /// DSP-1 baseline behavior.
    Dsp1,
    /// DSP-1B with the alternate data ROM observed in later boards.
    Dsp1B,
    /// DSP-2 family.
    Dsp2,
    /// DSP-3 family.
    Dsp3,
    /// DSP-4 family.
    Dsp4,
    /// A DSP cartridge whose revision could not be refined.
    Unknown,
}

/// A 3x3 Q15 matrix, row by row.
#[derive(Debug, Clone, Copy, PartialEq, Eq)]
pub struct Matrix3 {
    /// Row 0.
    pub r0: (i16, i16, i16),
    /// Row 1.
    pub r1: (i16, i16, i16),
    /// Row 2.
    pub r2: (i16, i16, i16),
}

/// The zero matrix.
pub open spec fn zero_matrix() -> Matrix3 {
    Matrix3 { r0: (0, 0, 0), r1: (0, 0, 0), r2: (0, 0, 0) }
}

/// Clamped sum of three Q15 products.
pub open spec fn spec_dot3(l: (i16, i16, i16), r: (i16, i16, i16)) -> i16 {
    clamp16(q15(l.0, r.0) as int + q15(l.1, r.1) as int + q15(l.2, r.2) as int)
}

/// Clamped sum of three Q15 products.
pub fn dot3(l: (i16, i16, i16), r: (i16, i16, i16)) -> (d: i16)
    ensures
        d == spec_dot3(l, r),
{
    let sum: i32 = q15_mul(l.0, r.0) as i32 + q15_mul(l.1, r.1) as i32 + q15_mul(l.2, r.2) as i32;
    clamp_i16(sum)
}

/// Column `j` of a matrix.
pub open spec fn column(m: Matrix3, j: int) -> (i16, i16, i16) {
    if j == 0 {
        (m.r0.0, m.r1.0, m.r2.0)
    } else if j == 1 {
        (m.r0.1, m.r1.1, m.r2.1)
    } else {
        (m.r0.2, m.r1.2, m.r2.2)
    }
}

/// Objective transform: each output is the dot product of a matrix column with the vector.
pub open spec fn spec_transform_objective(m: Matrix3, x: i16, y: i16, z: i16) -> Seq<i16> {
    seq![spec_dot3(column(m, 0), (x, y, z)), spec_dot3(column(m, 1), (x, y, z)), spec_dot3(column(m, 2), (x, y, z))]
}

/// Subjective transform: each output is the dot product of a matrix row with the vector.
pub open spec fn spec_transform_subjective(m: Matrix3, f: i16, l: i16, u: i16) -> Seq<i16> {
    seq![spec_dot3(m.r0, (f, l, u)), spec_dot3(m.r1, (f, l, u)), spec_dot3(m.r2, (f, l, u))]
}

} // verus!
