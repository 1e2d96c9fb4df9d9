//! An evolutionary-optimization engine over a feedforward computation
//! substrate. The engine evolves a fixed-size population of individuals
//! by fitness-weighted selection, uniform crossover and per-gene
//! mutation, driven by an explicit seedable random stream; the network
//! substrate turns a flat chromosome into a feedforward network and
//! back, so that a network can serve as a genome. All scalars live on a
//! fixed-point integer grid, which makes every computation exact and
//! lets every contract pin its result.

use vstd::prelude::*;

pub mod crossover;
pub mod engine;
pub mod genome;
pub mod individual;
pub mod mutation;
pub mod network;
pub mod rng;
pub mod selection;

verus! {

/// Number of fixed-point steps that stand for the real value 1.0.
///
/// Every scalar in this library (genes, biases, weights, activations,
/// mutation chance) is an `i64` on this grid: `1_500_000` stands for 1.5.
pub const GENE_UNIT: i64 = 1_000_000;

/// Largest scalar magnitude the network substrate accepts, on the
/// `GENE_UNIT` grid; keeps every intermediate product inside `i128`.
pub const VALUE_LIMIT: i64 = 1_000_000_000_000_000;

/// Largest vector length the network substrate accepts.
pub const WIDTH_LIMIT: usize = 1_000_000;

} // verus!
