use vstd::prelude::*;
use crate::crossover::UniformCrossover;
use crate::individual::Individual;
use crate::mutation::GaussianMutation;
use crate::rng::EngineRng;
use crate::selection::{SelectionError, SelectionMethod, all_fitness_nonneg, some_fitness_positive};

verus! {

/// Every individual of the population carries a chromosome of length
/// `len`: the invariant the engine preserves across generations.
pub open spec fn uniform_chromosome_len<I: Individual>(pop: Seq<I>, len: int) -> bool {
    forall|j: int| 0 <= j < pop.len() ==> (#[trigger] pop[j]).spec_chromosome().len() == len
}

/// Every gene of every individual leaves room for a mutation of scale
/// `c` without leaving the machine integers.
pub open spec fn genes_leave_margin<I: Individual>(pop: Seq<I>, c: int) -> bool {
    forall|j: int, i: int|
        0 <= j < pop.len() && 0 <= i < pop[j].spec_chromosome().len() ==> i64::MIN + c
            <= #[trigger] pop[j].spec_chromosome()[i] as int <= i64::MAX - c
}

/// Gene `g` lies within a mutation step of the gene some member of the
/// population carries at index `i`.
pub open spec fn gene_within_step_of<I: Individual>(pop: Seq<I>, i: int, g: i64, c: int) -> bool {
    exists|j: int|
        0 <= j < pop.len() && i < (#[trigger] pop[j]).spec_chromosome().len() && -c <= g
            - pop[j].spec_chromosome()[i] <= c
}

/// The evolutionary engine: a stateless combinator of the configured
/// selection, crossover and mutation strategies, generic over any
/// individual type.
pub struct GeneticAlgorithm<S> {
    pub selection: S,
    pub crossover: UniformCrossover,
    pub mutation: GaussianMutation,
}

impl<S: SelectionMethod> GeneticAlgorithm<S> {
    pub fn new(selection: S, crossover: UniformCrossover, mutation: GaussianMutation) -> (r: Self)
        ensures
            r.selection == selection,
            r.crossover == crossover,
            r.mutation == mutation,
    {
        GeneticAlgorithm { selection, crossover, mutation }
    }

    /// One generational step. For each of `population.len()` output
    /// slots, independently: two parents are drawn by the selection
    /// strategy (they may coincide), their chromosomes are crossed
    /// uniformly, the child chromosome is mutated in place, and a new
    /// individual is built from it. The new population fully replaces
    /// the old one: no elitism. Fails exactly when the fitness values
    /// are no valid selection weights.
    pub fn evolve<I: Individual>(&self, rng: &mut EngineRng, population: &Vec<I>) -> (r: Result<
        Vec<I>,
        SelectionError,
    >)
        requires
            population@.len() > 0,
            self.mutation.wf(),
            uniform_chromosome_len(
                population@,
                population@[0].spec_chromosome().len() as int,
            ),
            genes_leave_margin(population@, self.mutation.coefficient as int),
        ensures
            r is Ok <==> (all_fitness_nonneg(population@) && some_fitness_positive(population@)),
            r == Err::<Vec<I>, SelectionError>(SelectionError::NegativeFitness)
                <==> !all_fitness_nonneg(population@),
            r == Err::<Vec<I>, SelectionError>(SelectionError::ZeroFitnessTotal)
                <==> (all_fitness_nonneg(population@) && !some_fitness_positive(population@)),
            r matches Ok(out) ==> out@.len() == population@.len(),
            r matches Ok(out) ==> uniform_chromosome_len(
                out@,
                population@[0].spec_chromosome().len() as int,
            ),
            r matches Ok(out) ==> forall|k: int, i: int|
                0 <= k < out@.len() && 0 <= i < out@[k].spec_chromosome().len()
                    ==> gene_within_step_of(
                    population@,
                    i,
                    #[trigger] out@[k].spec_chromosome()[i],
                    self.mutation.coefficient as int,
                ),
    {
        let ghost chrom_len = population@[0].spec_chromosome().len() as int;
        let n: usize = population.len();
        let mut out: Vec<I> = Vec::new();
        let mut slot: usize = 0;
        while slot < n
            invariant
                0 <= slot <= n,
                n == population@.len(),
                0 < population@.len(),
                self.mutation.wf(),
                chrom_len == population@[0].spec_chromosome().len() as int,
                uniform_chromosome_len(population@, chrom_len),
                genes_leave_margin(population@, self.mutation.coefficient as int),
                out@.len() == slot,
                slot > 0 ==> all_fitness_nonneg(population@) && some_fitness_positive(
                    population@,
                ),
                uniform_chromosome_len(out@, chrom_len),
                forall|k: int, i: int|
                    0 <= k < out@.len() && 0 <= i < out@[k].spec_chromosome().len()
                        ==> gene_within_step_of(
                        population@,
                        i,
                        #[trigger] out@[k].spec_chromosome()[i],
                        self.mutation.coefficient as int,
                    ),
            decreases n - slot,
        {
            let parent_a = match self.selection.select(rng, population) {
                Ok(x) => x,
                Err(e) => {
                    return Err(e);
                },
            };
            let parent_b = match self.selection.select(rng, population) {
                Ok(x) => x,
                Err(e) => {
                    return Err(e);
                },
            };
            let ghost ja = choose|j: int|
                0 <= j < population@.len() && *parent_a == #[trigger] population@[j];
            let ghost jb = choose|j: int|
                0 <= j < population@.len() && *parent_b == #[trigger] population@[j];
            let genes_a = parent_a.chromosome();
            let genes_b = parent_b.chromosome();
            let mut child = self.crossover.crossover(rng, genes_a, genes_b);
            let ghost before = child@;
            proof {
                assert forall|i: int| 0 <= i < child@.len() implies i64::MIN
                    + self.mutation.coefficient <= #[trigger] child@[i] as int <= i64::MAX
                    - self.mutation.coefficient by {
                    assert(child@[i] == genes_a@[i] || child@[i] == genes_b@[i]);
                }
            }
            self.mutation.mutate(rng, &mut child);
            proof {
                assert forall|i: int| 0 <= i < child@.len() implies gene_within_step_of(
                    population@,
                    i,
                    child@[i],
                    self.mutation.coefficient as int,
                ) by {
                    if before[i] == genes_a@[i] {
                        assert(0 <= ja < population@.len() && i < population@[
                        ja].spec_chromosome().len() && -self.mutation.coefficient <= child@[i]
                            - population@[ja].spec_chromosome()[i] <= self.mutation.coefficient);
                    } else {
                        assert(0 <= jb < population@.len() && i < population@[
                        jb].spec_chromosome().len() && -self.mutation.coefficient <= child@[i]
                            - population@[jb].spec_chromosome()[i] <= self.mutation.coefficient);
                    }
                }
            }
            let offspring = I::from_chromosome(child);
            out.push(offspring);
            slot = slot + 1;
        }
        Ok(out)
    }
}

} // verus!
