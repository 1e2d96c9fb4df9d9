use vstd::prelude::*;
use crate::individual::Individual;
use crate::rng::EngineRng;

verus! {

/// Why a fitness-weighted draw over a population cannot be made.
#[derive(Clone, Copy, Debug, PartialEq, Eq, Structural)]
pub enum SelectionError {
    /// Some individual reports a negative fitness, which cannot stand
    /// as a selection weight.
    NegativeFitness,
    /// Every individual reports zero fitness: there is nothing to
    /// weight the wheel by.
    ZeroFitnessTotal,
}

pub open spec fn all_fitness_nonneg<I: Individual>(pop: Seq<I>) -> bool {
    forall|j: int| 0 <= j < pop.len() ==> (#[trigger] pop[j]).spec_fitness() >= 0
}

pub open spec fn some_fitness_positive<I: Individual>(pop: Seq<I>) -> bool {
    exists|j: int| 0 <= j < pop.len() && (#[trigger] pop[j]).spec_fitness() > 0
}

/// The sum of the first `k` fitness values: the cumulative weights of
/// the roulette wheel, in population order.
pub open spec fn fitness_prefix_sum<I: Individual>(pop: Seq<I>, k: int) -> int
    decreases k,
{
    if k <= 0 {
        0
    } else {
        fitness_prefix_sum(pop, k - 1) + pop[k - 1].spec_fitness()
    }
}

proof fn lemma_prefix_sum_mono<I: Individual>(pop: Seq<I>, k1: int, k2: int)
    requires
        all_fitness_nonneg(pop),
        0 <= k1 <= k2 <= pop.len(),
    ensures
        fitness_prefix_sum(pop, k1) <= fitness_prefix_sum(pop, k2),
    decreases k2 - k1,
{
    if k1 < k2 {
        lemma_prefix_sum_mono(pop, k1, k2 - 1);
    }
}

proof fn lemma_prefix_sum_all_zero<I: Individual>(pop: Seq<I>, k: int)
    requires
        all_fitness_nonneg(pop),
        !some_fitness_positive(pop),
        0 <= k <= pop.len(),
    ensures
        fitness_prefix_sum(pop, k) == 0,
    decreases k,
{
    if k > 0 {
        lemma_prefix_sum_all_zero(pop, k - 1);
        assert(pop[k - 1].spec_fitness() <= 0);
    }
}

/// The deterministic core of fitness-proportional selection: the draws
/// that land the wheel on individual `k` are exactly those in the
/// window from `fitness_prefix_sum(pop, k)` up to
/// `fitness_prefix_sum(pop, k + 1)`, and that window is as wide as
/// `k`'s fitness. Under a draw uniform over the total weight, each
/// individual is therefore chosen with frequency approaching its share
/// of the total fitness.
pub proof fn lemma_wheel_window_width<I: Individual>(pop: Seq<I>, k: int)
    requires
        all_fitness_nonneg(pop),
        0 <= k < pop.len(),
    ensures
        fitness_prefix_sum(pop, k + 1) - fitness_prefix_sum(pop, k) == pop[k].spec_fitness(),
{
}

/// Picks one individual out of a population, weighted by fitness.
/// Implementations must return a member of the population, and must
/// succeed exactly when the fitness values form valid weights: none
/// negative and not all zero.
pub trait SelectionMethod: Sized {
    fn select<'a, I: Individual>(&self, rng: &mut EngineRng, population: &'a Vec<I>) -> (r:
        Result<&'a I, SelectionError>)
        requires
            population@.len() > 0,
        ensures
            r is Ok <==> (all_fitness_nonneg(population@) && some_fitness_positive(population@)),
            r matches Ok(ind) ==> exists|j: int|
                0 <= j < population@.len() && *ind == #[trigger] population@[j],
            r == Err::<&'a I, SelectionError>(SelectionError::NegativeFitness)
                <==> !all_fitness_nonneg(population@),
            r == Err::<&'a I, SelectionError>(SelectionError::ZeroFitnessTotal)
                <==> (all_fitness_nonneg(population@) && !some_fitness_positive(population@)),
    ;
}

/// Roulette-wheel selection: each individual is chosen with
/// probability proportional to its share of the total fitness.
pub struct RouletteWheelSelection;

impl RouletteWheelSelection {
    pub fn new() -> (r: RouletteWheelSelection)
        ensures
            r == RouletteWheelSelection,
    {
        RouletteWheelSelection
    }

    /// Where the wheel lands for a given draw: the first individual
    /// whose cumulative weight strictly exceeds the draw.
    pub fn pick_index<I: Individual>(population: &Vec<I>, draw: u128) -> (k: usize)
        requires
            population@.len() > 0,
            all_fitness_nonneg(population@),
            (draw as int) < fitness_prefix_sum(population@, population@.len() as int),
            draw < 0x8000_0000_0000_0000_0000_0000_0000_0000u128,
        ensures
            k < population@.len(),
            fitness_prefix_sum(population@, k as int) <= draw as int,
            (draw as int) < fitness_prefix_sum(population@, k as int + 1),
    {
        let mut acc: u128 = 0;
        let mut k: usize = 0;
        while k < population.len()
            invariant
                0 <= k <= population@.len(),
                all_fitness_nonneg(population@),
                (draw as int) < fitness_prefix_sum(population@, population@.len() as int),
                draw < 0x8000_0000_0000_0000_0000_0000_0000_0000u128,
                acc == fitness_prefix_sum(population@, k as int),
                acc <= draw,
            decreases population@.len() - k,
        {
            let f: i64 = population[k].fitness();
            proof {
                assert(population@[k as int].spec_fitness() >= 0);
                assert(f >= 0);
            }
            if draw < acc + (f as u128) {
                return k;
            }
            acc = acc + (f as u128);
            k = k + 1;
        }
        proof {
            assert(false);
        }
        unreached()
    }
}

impl SelectionMethod for RouletteWheelSelection {
    /// The cumulative-weight draw: one uniform draw scaled to the total
    /// weight, then a scan of the cumulative weights in population
    /// order.
    fn select<'a, I: Individual>(&self, rng: &mut EngineRng, population: &'a Vec<I>) -> (r:
        Result<&'a I, SelectionError>) {
        let mut total: u128 = 0;
        let mut k: usize = 0;
        while k < population.len()
            invariant
                0 <= k <= population@.len(),
                forall|j: int| 0 <= j < k ==> (#[trigger] population@[j]).spec_fitness() >= 0,
                total == fitness_prefix_sum(population@, k as int),
                total <= (k as int) * 0x7fff_ffff_ffff_ffff,
            decreases population@.len() - k,
        {
            let f: i64 = population[k].fitness();
            if f < 0 {
                return Err(SelectionError::NegativeFitness);
            }
            total = total + (f as u128);
            k = k + 1;
        }
        if total == 0 {
            proof {
                if some_fitness_positive(population@) {
                    let j = choose|j: int|
                        0 <= j < population@.len() && (#[trigger] population@[
                        j]).spec_fitness() > 0;
                    lemma_prefix_sum_mono(population@, 0, j);
                    lemma_prefix_sum_mono(population@, j + 1, population@.len() as int);
                }
            }
            return Err(SelectionError::ZeroFitnessTotal);
        }
        proof {
            if !some_fitness_positive(population@) {
                lemma_prefix_sum_all_zero(population@, population@.len() as int);
            }
            assert((population@.len() as int) * 0x7fff_ffff_ffff_ffff
                < 0x8000_0000_0000_0000_0000_0000_0000_0000) by (nonlinear_arith)
                requires
                    population@.len() as int <= 0xFFFF_FFFF_FFFF_FFFF,
            ;
        }
        let draw: u128 = rng.next_below(total);
        let k = RouletteWheelSelection::pick_index(population, draw);
        Ok(&population[k])
    }
}

} // verus!
