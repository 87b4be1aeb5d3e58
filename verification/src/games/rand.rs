use vstd::prelude::*;

verus! {

/// The additive constant of SplitMix64 (the golden-ratio increment).
pub const SPLITMIX_GAMMA: u64 = 0x9E37_79B9_7F4A_7C15;
/// First SplitMix64 multiplier.
pub const SPLITMIX_MUL_A: u64 = 0xBF58_476D_1CE4_E5B9;
/// Second SplitMix64 multiplier.
pub const SPLITMIX_MUL_B: u64 = 0x94D0_49BB_1331_11EB;

/// One xor-shift-multiply round of SplitMix64, with the product taken modulo 2^64.
pub open spec fn mix_round(z: u64, shift: u64, mul: u64) -> u64 {
    vstd::wrapping::u64_specs::wrapping_mul(z ^ (z >> shift), mul)
}

/// The SplitMix64 output for `seed`: the seed is advanced by the golden-ratio
/// increment (modulo 2^64) and then scrambled.
pub open spec fn splitmix64(seed: u64) -> u64 {
    let z0 = vstd::wrapping::u64_specs::wrapping_add(seed, SPLITMIX_GAMMA);
    let z1 = mix_round(z0, 30, SPLITMIX_MUL_A);
    let z2 = mix_round(z1, 27, SPLITMIX_MUL_B);
    z2 ^ (z2 >> 31u64)
}

/// Deterministic pseudo-random value derived from `seed` (one SplitMix64 step).
/// The same seed always gives the same value.
pub fn fast_rand(seed: u64) -> (r: u64)
    ensures
        r == splitmix64(seed),
{
    let z0 = seed.wrapping_add(SPLITMIX_GAMMA);
    let z1 = (z0 ^ (z0 >> 30u64)).wrapping_mul(SPLITMIX_MUL_A);
    let z2 = (z1 ^ (z1 >> 27u64)).wrapping_mul(SPLITMIX_MUL_B);
    z2 ^ (z2 >> 31u64)
}

} // verus!
