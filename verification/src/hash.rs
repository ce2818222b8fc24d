//! Integer mixing behind the deterministic per-seed jitter of lightning bolts
//! and camera kicks.

use vstd::prelude::*;

verus! {

/// `x * c` modulo 2^32.
pub open spec fn mul_mod32(x: u32, c: u32) -> u32 {
    ((x as nat * c as nat) % 0x1_0000_0000) as u32
}

/// `a + b` modulo 2^32.
pub open spec fn add_mod32(a: u32, b: u32) -> u32 {
    ((a as nat + b as nat) % 0x1_0000_0000) as u32
}

/// One xor-shift step: `x ^ (x >> k)`.
pub open spec fn xorshift(x: u32, k: u32) -> u32 {
    x ^ (x >> k)
}

/// The mixed 32-bit value for a (seed, salt) pair: a golden-ratio combine of
/// both inputs followed by three xor-shift / multiply rounds.
pub open spec fn spec_hash_mix(seed: u32, salt: u32) -> u32 {
    let x0 = add_mod32(mul_mod32(seed, 0x9E3779B1), mul_mod32(salt, 0x85EBCA77));
    let x1 = mul_mod32(xorshift(x0, 16), 0x7FEB352D);
    let x2 = mul_mod32(xorshift(x1, 15), 0x846CA68B);
    xorshift(x2, 16)
}

/// Mixes a seed and a salt into 32 well-spread bits; the application maps
/// the result onto [0, 1] as `bits / u32::MAX`.
pub fn hash_mix(seed: u32, salt: u32) -> (r: u32)
    ensures
        r == spec_hash_mix(seed, salt),
{
    let a = seed.wrapping_mul(0x9E3779B1);
    let b = salt.wrapping_mul(0x85EBCA77);
    let mut x = a.wrapping_add(b);
    assert(x == add_mod32(mul_mod32(seed, 0x9E3779B1), mul_mod32(salt, 0x85EBCA77)));
    x = x ^ (x >> 16u32);
    x = x.wrapping_mul(0x7FEB352D);
    x = x ^ (x >> 15u32);
    x = x.wrapping_mul(0x846CA68B);
    x = x ^ (x >> 16u32);
    x
}

} // verus!
