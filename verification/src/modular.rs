//! Arithmetic modulo the prime `2**61 - 1`, in which a multiplication by a power of two is a
//! rotation of 61 bits.
use vstd::prelude::*;

use crate::hash::MODULUS;
use vstd::arithmetic::power2::{lemma2_to64, lemma2_to64_rest, lemma_pow2_adds, pow2};

verus! {

/// `z * 2**e` modulo [`MODULUS`]; since `2**61` is 1 there, the exponent counts modulo 61, and
/// a negative one divides.
pub open spec fn scaled(z: int, e: int) -> int {
    (z * pow2((e % 61) as nat)) % (MODULUS as int)
}

/// The smaller of two exponents can absorb a factor of two.
proof fn lemma_scaled_double(z: int, e: int)
    ensures
        scaled(2 * z, e) == scaled(z, e + 1),
{
    let k = e % 61;
    let m = MODULUS as int;
    if k == 60 {
        assert((e + 1) % 61 == 0);
        lemma2_to64();
        lemma2_to64_rest();
        assert(2 * z * 0x1000_0000_0000_0000 == z * 0x1fff_ffff_ffff_ffff + z * 1);
        vstd::arithmetic::div_mod::lemma_mod_multiples_vanish(z, z * 1, m);
        assert(m * z + z * 1 == 2 * z * 0x1000_0000_0000_0000);
    } else {
        assert((e + 1) % 61 == k + 1);
        lemma2_to64();
        lemma_pow2_adds(1, k as nat);
        assert(2 * z * pow2(k as nat) == z * (2 * pow2(k as nat))) by (nonlinear_arith);
    }
}

/// A factor that is a power of two moves into the exponent.
pub proof fn lemma_scaled_shift(z: int, s: nat, e: int)
    ensures
        scaled(z * pow2(s), e) == scaled(z, e + s),
    decreases s,
{
    if s == 0 {
        lemma2_to64();
    } else {
        let half = z * pow2((s - 1) as nat);
        lemma2_to64();
        lemma_pow2_adds(1, (s - 1) as nat);
        assert(z * pow2(s) == 2 * half) by (nonlinear_arith)
            requires
                pow2(s) == 2 * pow2((s - 1) as nat),
                half == z * pow2((s - 1) as nat),
        ;
        lemma_scaled_double(half, e);
        lemma_scaled_shift(z, (s - 1) as nat, e + 1);
    }
}

/// In 128 bits the shift of a word by less than 61 loses nothing.
proof fn lemma_shift_is_product(x: u64, e: u32)
    requires
        e < 61,
    ensures
        (x as u128) << (e as u128) == x * pow2(e as nat),
    decreases e,
{
    lemma2_to64();
    if e == 0 {
        assert((x as u128) << 0u128 == x) by (bit_vector);
    } else {
        let d: u32 = (e - 1) as u32;
        lemma_shift_is_product(x, d);
        lemma_pow2_adds(1, d as nat);
        assert((x as u128) << (e as u128) == 2 * ((x as u128) << (d as u128))) by (bit_vector)
            requires
                0 < e < 61,
                d == e - 1,
        ;
        assert(2 * (x * pow2(d as nat)) == x * (2 * pow2(d as nat))) by (nonlinear_arith);
    }
}

/// Rotates `x` left by `e` bits in a word of 61 bits.
pub fn rotate(x: u64, e: u32) -> (r: u64)
    requires
        x < MODULUS,
        e < 61,
    ensures
        r < MODULUS,
        r == (x * pow2(e as nat)) % (MODULUS as int),
{
    let low: u64 = (x << e) & MODULUS;
    let high: u64 = x >> (61 - e);
    let r: u64 = low | high;
    proof {
        let d: u32 = (61 - e) as u32;
        assert((((x << e) & 0x1fff_ffff_ffff_ffffu64) | (x >> d)) == ((x << e)
            & 0x1fff_ffff_ffff_ffffu64) + (x >> d)) by (bit_vector)
            requires
                x < 0x1fff_ffff_ffff_ffffu64,
                e < 61,
                d == 61 - e,
        ;
        assert((((x << e) & 0x1fff_ffff_ffff_ffffu64) | (x >> d)) < 0x1fff_ffff_ffff_ffffu64)
            by (bit_vector)
            requires
                x < 0x1fff_ffff_ffff_ffffu64,
                e < 61,
                d == 61 - e,
        ;
        assert((x as u128) << (e as u128) == ((x >> d) as u128) * 0x2000_0000_0000_0000u128 + ((x << e)
            & 0x1fff_ffff_ffff_ffffu64) as u128) by (bit_vector)
            requires
                x < 0x1fff_ffff_ffff_ffffu64,
                e < 61,
                d == 61 - e,
        ;
        let p = pow2(e as nat) as int;
        lemma2_to64();
        lemma2_to64_rest();
        if e < 60 {
            vstd::arithmetic::power2::lemma_pow2_strictly_increases(e as nat, 60);
        }
        assert(x * p <= 0xffff_ffff_ffff_ffff_ffff_ffff_ffff_ffff) by (nonlinear_arith)
            requires
                0 <= x < 0x2000_0000_0000_0000,
                0 <= p <= 0x1000_0000_0000_0000,
        ;
        lemma_shift_is_product(x, e);
        let whole = x * p;
        assert(whole == high * 0x2000_0000_0000_0000 + low);
        assert(whole == (MODULUS as int) * (high as int) + r);
        vstd::arithmetic::div_mod::lemma_mod_multiples_vanish(high as int, r as int, MODULUS as int);
        vstd::arithmetic::div_mod::lemma_small_mod(r as nat, MODULUS as nat);
    }
    r
}

} // verus!
