//! Deterministic input generation.
//!
//! Each distribution draws one generator step per sample from a fixed seed,
//! so a given distribution and size always yield the same byte sequence.
//! The skewed shape sends roughly four fifths of the samples into the first
//! fifth of the bins and spreads the rest over the remaining bins.

use vstd::prelude::*;
use crate::rng::{lcg_next, spec_lcg_iter, spec_lcg_next};

verus! {

/// The statistical shape of the generated input.
#[derive(Clone, Copy, PartialEq, Eq, Structural, Debug)]
pub enum Dist {
    Uniform,
    Skewed,
}

/// Seed of the uniform distribution.
pub const UNIFORM_SEED: u32 = 123456789;

/// Seed of the skewed distribution.
pub const SKEWED_SEED: u32 = 987654321;

/// Number of "hot" bins of the skewed distribution: one fifth of the 256 bins.
pub const HOT_BINS: u8 = 51;

/// Threshold on the raw generator output that selects a hot bin:
/// four fifths of the u32 range.
pub const HOT_THRESHOLD: u32 = 3435973836;

/// The seed a distribution starts from.
pub open spec fn spec_seed(d: Dist) -> u32 {
    match d {
        Dist::Uniform => UNIFORM_SEED,
        Dist::Skewed => SKEWED_SEED,
    }
}

/// The sample a raw generator output maps to under the uniform shape:
/// its low byte.
pub open spec fn spec_uniform_sample(x: u32) -> u8 {
    (x % 256) as u8
}

/// The sample a raw generator output maps to under the skewed shape:
/// outputs below the threshold land in a hot bin, the rest keep their low
/// byte, shifted out of the hot range when it falls inside it.
pub open spec fn spec_skewed_sample(x: u32) -> u8 {
    if x < HOT_THRESHOLD {
        (x % (HOT_BINS as u32)) as u8
    } else {
        let v = (x % 256) as u8;
        if v < HOT_BINS {
            (v + HOT_BINS) as u8
        } else {
            v
        }
    }
}

/// The i-th sample of a distribution: the generator state after i + 1 steps,
/// mapped through the distribution's shape.
pub open spec fn spec_sample(d: Dist, i: int) -> u8 {
    let x = spec_lcg_iter(spec_seed(d), (i + 1) as nat);
    match d {
        Dist::Uniform => spec_uniform_sample(x),
        Dist::Skewed => spec_skewed_sample(x),
    }
}

/// The whole sequence a distribution generates for a given size.
pub open spec fn spec_generate(d: Dist, n: nat) -> Seq<u8> {
    Seq::new(n, |i: int| spec_sample(d, i))
}

/// Map one raw generator output to a sample of the given distribution.
fn sample_of(d: Dist, x: u32) -> (r: u8)
    ensures
        r == match d {
            Dist::Uniform => spec_uniform_sample(x),
            Dist::Skewed => spec_skewed_sample(x),
        },
{
    match d {
        Dist::Uniform => (x % 256) as u8,
        Dist::Skewed => {
            if x < HOT_THRESHOLD {
                (x % (HOT_BINS as u32)) as u8
            } else {
                let v = (x % 256) as u8;
                if v < HOT_BINS {
                    v + HOT_BINS
                } else {
                    v
                }
            }
        },
    }
}

/// Produce the sample sequence of a distribution.
///
/// The result is a function of the distribution and the size alone, so two
/// calls with the same arguments return byte-identical sequences.
pub fn generate(d: Dist, n: usize) -> (r: Vec<u8>)
    ensures
        r@ == spec_generate(d, n as nat),
{
    let mut data: Vec<u8> = Vec::new();
    let mut x: u32 = match d {
        Dist::Uniform => UNIFORM_SEED,
        Dist::Skewed => SKEWED_SEED,
    };
    let mut i: usize = 0;
    while i < n
        invariant
            i <= n,
            x == spec_lcg_iter(spec_seed(d), i as nat),
            data@.len() == i as nat,
            forall|j: int| 0 <= j < i ==> data@[j] == spec_sample(d, j),
        decreases n - i,
    {
        x = lcg_next(x);
        let s = sample_of(d, x);
        data.push(s);
        i = i + 1;
    }
    proof {
        assert(data@ =~= spec_generate(d, n as nat));
    }
    data
}

/// Produce the uniform sample sequence of the given size.
pub fn gen_uniform(n: usize) -> (r: Vec<u8>)
    ensures
        r@ == spec_generate(Dist::Uniform, n as nat),
{
    generate(Dist::Uniform, n)
}

/// Produce the skewed sample sequence of the given size.
pub fn gen_skewed(n: usize) -> (r: Vec<u8>)
    ensures
        r@ == spec_generate(Dist::Skewed, n as nat),
{
    generate(Dist::Skewed, n)
}

/// Determinism of the generator: any two sequences produced for the same
/// distribution and size are equal.
pub proof fn lemma_generate_deterministic(d: Dist, n: nat, a: Seq<u8>, b: Seq<u8>)
    requires
        a == spec_generate(d, n),
        b == spec_generate(d, n),
    ensures
        a == b,
{
}

} // verus!
