//! The 64-bit avalanche mixer that turns an index into a uniform value.

use vstd::prelude::*;

verus! {

/// The odd constant, derived from the golden ratio, added before mixing.
pub const GOLDEN_GAMMA: u64 = 0x9E3779B97F4A7C15;

/// The multiplier of the first round.
pub const MIX_MUL_A: u64 = 0xBF58476D1CE4E5B9;

/// The multiplier of the second round.
pub const MIX_MUL_B: u64 = 0x94D049BB133111EB;

/// `x * y` modulo 2^64.
pub open spec fn mul64(x: u64, y: u64) -> u64 {
    ((x as nat * y as nat) % 0x1_0000_0000_0000_0000) as u64
}

/// `x + y` modulo 2^64.
pub open spec fn add64(x: u64, y: u64) -> u64 {
    if x + y > u64::MAX {
        (x + y - 0x1_0000_0000_0000_0000) as u64
    } else {
        (x + y) as u64
    }
}

/// One round of the mixer: xor the value with itself shifted right, then
/// multiply.
pub open spec fn mix_round(z: u64, shift: u64, mul: u64) -> u64 {
    mul64(z ^ (z >> shift), mul)
}

/// The mixed value of an index.
pub open spec fn mix64(index: u64) -> u64 {
    let z0 = add64(index, GOLDEN_GAMMA);
    let z1 = mix_round(z0, 30, MIX_MUL_A);
    let z2 = mix_round(z1, 27, MIX_MUL_B);
    z2 ^ (z2 >> 31)
}

/// Mixes an index into a uniform 64-bit value. All arithmetic wraps.
pub fn split_mix_64(index: u64) -> (mixed: u64)
    ensures
        mixed == mix64(index),
{
    let z0: u64 = index.wrapping_add(GOLDEN_GAMMA);
    let z1: u64 = (z0 ^ (z0 >> 30)).wrapping_mul(MIX_MUL_A);
    let z2: u64 = (z1 ^ (z1 >> 27)).wrapping_mul(MIX_MUL_B);
    z2 ^ (z2 >> 31)
}

/// The inverse of `MIX_MUL_A` modulo 2^64.
pub const MIX_INV_A: u64 = 0x96DE1B173F119089;

/// The inverse of `MIX_MUL_B` modulo 2^64.
pub const MIX_INV_B: u64 = 0x319642B2D24D8EC3;

/// Multiplying by `c` is undone by multiplying by an inverse of `c`.
pub proof fn lemma_mul64_undone(x: u64, c: u64, d: u64)
    requires
        mul64(c, d) == 1,
    ensures
        mul64(mul64(x, c), d) == x,
{
    let m: int = 0x1_0000_0000_0000_0000;
    let xi: int = x as int;
    let ci: int = c as int;
    let di: int = d as int;
    // ((x * c) mod m) * d  is  (x * c) * d  modulo m,
    vstd::arithmetic::div_mod::lemma_mul_mod_noop_general(xi * ci, di, m);
    // which is  x * (c * d),
    vstd::arithmetic::mul::lemma_mul_is_associative(xi, ci, di);
    // which is  x * ((c * d) mod m) = x * 1  modulo m.
    vstd::arithmetic::div_mod::lemma_mul_mod_noop_general(xi, ci * di, m);
    vstd::arithmetic::div_mod::lemma_small_mod(x as nat, m as nat);
    assert(0 <= (xi * ci) % m < m) by (nonlinear_arith)
        requires
            m > 0,
    ;
}

/// Multiplying by an invertible constant sends different values to
/// different values.
pub proof fn lemma_mul64_injective(x: u64, y: u64, c: u64, d: u64)
    requires
        mul64(c, d) == 1,
        mul64(x, c) == mul64(y, c),
    ensures
        x == y,
{
    lemma_mul64_undone(x, c, d);
    lemma_mul64_undone(y, c, d);
}

/// Xoring a value with itself shifted right, by any of the mixer's three
/// shifts, sends different values to different values.
pub proof fn lemma_xorshift_injective(x: u64, y: u64)
    ensures
        x ^ (x >> 30) == y ^ (y >> 30) ==> x == y,
        x ^ (x >> 27) == y ^ (y >> 27) ==> x == y,
        x ^ (x >> 31) == y ^ (y >> 31) ==> x == y,
{
    assert(x ^ (x >> 30) == y ^ (y >> 30) ==> x == y) by (bit_vector);
    assert(x ^ (x >> 27) == y ^ (y >> 27) ==> x == y) by (bit_vector);
    assert(x ^ (x >> 31) == y ^ (y >> 31) ==> x == y) by (bit_vector);
}

/// The mixer sends different indices to different values: it is a
/// one-to-one map of the 64-bit values.
pub proof fn lemma_mix64_injective(x: u64, y: u64)
    requires
        mix64(x) == mix64(y),
    ensures
        x == y,
{
    let x0 = add64(x, GOLDEN_GAMMA);
    let y0 = add64(y, GOLDEN_GAMMA);
    let x1 = mix_round(x0, 30, MIX_MUL_A);
    let y1 = mix_round(y0, 30, MIX_MUL_A);
    let x2 = mix_round(x1, 27, MIX_MUL_B);
    let y2 = mix_round(y1, 27, MIX_MUL_B);
    lemma_xorshift_injective(x2, y2);
    assert(x2 == y2);
    assert(mul64(MIX_MUL_B, MIX_INV_B) == 1);
    lemma_mul64_injective(x1 ^ (x1 >> 27), y1 ^ (y1 >> 27), MIX_MUL_B, MIX_INV_B);
    lemma_xorshift_injective(x1, y1);
    assert(x1 == y1);
    assert(mul64(MIX_MUL_A, MIX_INV_A) == 1);
    lemma_mul64_injective(x0 ^ (x0 >> 30), y0 ^ (y0 >> 30), MIX_MUL_A, MIX_INV_A);
    lemma_xorshift_injective(x0, y0);
    assert(x0 == y0);
}

} // verus!
