use vstd::prelude::*;

verus! {

/// A candidate solution: scored by a fitness value and encodable as a
/// flat chromosome of fixed-point genes. The engine is generic over any
/// type offering these three capabilities.
pub trait Individual: Sized {
    /// The fitness this individual reports, as a mathematical value.
    spec fn spec_fitness(&self) -> int;

    /// The chromosome this individual encodes to, as a mathematical value.
    spec fn spec_chromosome(&self) -> Seq<i64>;

    /// The fitness score; selection requires it to be non-negative.
    fn fitness(&self) -> (r: i64)
        ensures
            r as int == self.spec_fitness(),
    ;

    /// The genes of this individual, in their fixed encoding order.
    fn chromosome(&self) -> (r: &Vec<i64>)
        ensures
            r@ == self.spec_chromosome(),
    ;

    /// Builds the individual a chromosome encodes.
    fn from_chromosome(genes: Vec<i64>) -> (r: Self)
        ensures
            r.spec_chromosome() == genes@,
    ;
}

/// The simplest individual: a bare fitness score and a chromosome,
/// carrying no behaviour of its own.
#[derive(Clone, Debug)]
pub struct TestIndividual {
    pub fitness: i64,
    pub chromosome: Vec<i64>,
}

impl TestIndividual {
    pub fn new(fitness: i64) -> (r: TestIndividual)
        ensures
            r.fitness == fitness,
            r.chromosome@ == Seq::<i64>::empty(),
    {
        TestIndividual { fitness, chromosome: Vec::new() }
    }

    pub fn with_chromosome(fitness: i64, chromosome: Vec<i64>) -> (r: TestIndividual)
        ensures
            r.fitness == fitness,
            r.chromosome == chromosome,
    {
        TestIndividual { fitness, chromosome }
    }
}

impl Individual for TestIndividual {
    open spec fn spec_fitness(&self) -> int {
        self.fitness as int
    }

    open spec fn spec_chromosome(&self) -> Seq<i64> {
        self.chromosome@
    }

    fn fitness(&self) -> (r: i64) {
        self.fitness
    }

    fn chromosome(&self) -> (r: &Vec<i64>) {
        &self.chromosome
    }

    fn from_chromosome(genes: Vec<i64>) -> (r: TestIndividual) {
        TestIndividual { fitness: 0, chromosome: genes }
    }
}

} // verus!
