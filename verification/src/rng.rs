use vstd::prelude::*;
use crate::GENE_UNIT;

verus! {

#[verifier::external_type_specification]
#[verifier::external_body]
pub struct ExChaCha8Rng(rand_chacha::ChaCha8Rng);

/// A seedable, reproducible stream of pseudo-random draws.
///
/// The engine never owns a seeding policy: callers construct one of these
/// from a seed of their choosing and thread it through every call that
/// consumes randomness, so two runs from the same seed replay identically.
pub struct EngineRng {
    stream: rand_chacha::ChaCha8Rng,
}

impl EngineRng {
    /// Relies on rand_core's SeedableRng::seed_from_u64 to build a
    /// deterministic ChaCha8 stream from a 64-bit seed.
    #[verifier::external_body]
    pub fn from_seed(seed: u64) -> (r: EngineRng)
    {
        EngineRng { stream: <rand_chacha::ChaCha8Rng as rand::SeedableRng>::seed_from_u64(seed) }
    }

    /// Relies on rand's Rng::gen_range over `0..bound`: a draw uniform in
    /// the half-open range, so strictly below `bound`; panics only on an
    /// empty range, which `bound >= 1` rules out.
    #[verifier::external_body]
    pub fn next_below(&mut self, bound: u128) -> (r: u128)
        requires
            bound >= 1,
        ensures
            r < bound,
    {
        rand::Rng::gen_range(&mut self.stream, 0..bound)
    }

    /// A fair coin: one uniform draw over two outcomes.
    pub fn coin(&mut self) -> (r: bool)
    {
        self.next_below(2) == 0
    }

    /// A draw uniform over the inclusive range `lo..=hi`.
    pub fn next_between(&mut self, lo: i64, hi: i64) -> (r: i64)
        requires
            lo <= hi,
            -0x2000_0000_0000_0000 <= lo,
            hi <= 0x2000_0000_0000_0000,
        ensures
            lo <= r <= hi,
    {
        let width: u128 = (hi - lo) as u128 + 1;
        let d: u128 = self.next_below(width);
        lo + (d as i64)
    }

    /// A draw uniform over the fixed-point unit interval `[0, 1)`:
    /// an integer in `[0, GENE_UNIT)`.
    pub fn next_unit_fraction(&mut self) -> (r: i64)
        ensures
            0 <= r < GENE_UNIT,
    {
        self.next_below(GENE_UNIT as u128) as i64
    }
}

} // verus!
