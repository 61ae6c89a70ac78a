//! A linear-congruential pseudo-random generator.
//!
//! All input data for the benchmark comes from this generator, advanced once
//! per sample from a fixed seed, so that every run of a given configuration
//! works on a byte-identical sequence.

use vstd::prelude::*;

verus! {

/// Multiplier of the linear-congruential step.
pub const LCG_MUL: u32 = 1664525;

/// Increment of the linear-congruential step.
pub const LCG_INC: u32 = 1013904223;

/// One step of the generator: multiply and add, modulo 2^32.
pub open spec fn spec_lcg_next(x: u32) -> u32 {
    (((x as int) * (LCG_MUL as int) + (LCG_INC as int)) % 0x1_0000_0000) as u32
}

/// The generator state after `k` steps from `seed`.
pub open spec fn spec_lcg_iter(seed: u32, k: nat) -> u32
    decreases k,
{
    if k == 0 {
        seed
    } else {
        spec_lcg_next(spec_lcg_iter(seed, (k - 1) as nat))
    }
}

/// Advance the generator state by one step.
pub fn lcg_next(x: u32) -> (r: u32)
    ensures
        r == spec_lcg_next(x),
{
    let wide: u64 = (x as u64) * 1664525u64 + 1013904223u64;
    let r: u32 = (wide % 0x1_0000_0000) as u32;
    assert(r == spec_lcg_next(x));
    r
}

} // verus!
