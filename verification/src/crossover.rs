use vstd::prelude::*;
use crate::rng::EngineRng;

verus! {

/// Uniform crossover: each gene of the child is an exact copy of the
/// corresponding gene of one of the two parents, chosen independently
/// per index by a fair coin. Genes are never blended, averaged or
/// reordered.
pub struct UniformCrossover;

impl UniformCrossover {
    pub fn new() -> (r: UniformCrossover)
        ensures
            r == UniformCrossover,
    {
        UniformCrossover
    }

    /// The deterministic core of uniform crossover: gene `i` of the
    /// child is parent A's gene where the mask holds at `i`, else
    /// parent B's.
    pub fn crossover_with(mask: &Vec<bool>, parent_a: &Vec<i64>, parent_b: &Vec<i64>) -> (r: Vec<
        i64,
    >)
        requires
            mask@.len() == parent_a@.len(),
            parent_a@.len() == parent_b@.len(),
        ensures
            r@.len() == parent_a@.len(),
            forall|i: int| 0 <= i < r@.len()
                ==> r@[i] == (if mask@[i] { parent_a@[i] } else { parent_b@[i] }),
    {
        let mut child: Vec<i64> = Vec::new();
        let mut k: usize = 0;
        while k < parent_a.len()
            invariant
                0 <= k <= parent_a@.len(),
                mask@.len() == parent_a@.len(),
                parent_a@.len() == parent_b@.len(),
                child@.len() == k,
                forall|i: int| 0 <= i < k
                    ==> #[trigger] child@[i] == (if mask@[i] { parent_a@[i] } else { parent_b@[i] }),
            decreases parent_a@.len() - k,
        {
            if mask[k] {
                child.push(parent_a[k]);
            } else {
                child.push(parent_b[k]);
            }
            k = k + 1;
        }
        child
    }

    /// One fair coin per gene index decides which parent's gene is
    /// copied: every child gene equals one parent's gene at the same
    /// index, never a blend.
    pub fn crossover(&self, rng: &mut EngineRng, parent_a: &Vec<i64>, parent_b: &Vec<i64>) -> (r:
        Vec<i64>)
        requires
            parent_a@.len() == parent_b@.len(),
        ensures
            r@.len() == parent_a@.len(),
            forall|i: int| 0 <= i < r@.len()
                ==> #[trigger] r@[i] == parent_a@[i] || r@[i] == parent_b@[i],
    {
        let mut mask: Vec<bool> = Vec::new();
        let mut k: usize = 0;
        while k < parent_a.len()
            invariant
                0 <= k <= parent_a@.len(),
                mask@.len() == k,
            decreases parent_a@.len() - k,
        {
            let c: bool = rng.coin();
            mask.push(c);
            k = k + 1;
        }
        UniformCrossover::crossover_with(&mask, parent_a, parent_b)
    }
}

} // verus!
