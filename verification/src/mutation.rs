use vstd::prelude::*;
use vstd::arithmetic::div_mod::{lemma_div_is_ordered, lemma_div_multiples_vanish};
use vstd::arithmetic::mul::lemma_mul_inequality;
use crate::rng::EngineRng;
use crate::GENE_UNIT;

verus! {

/// The exact perturbation applied to one gene: the coefficient scaled
/// by a fixed-point magnitude drawn from the unit interval `[0, 1)`.
pub open spec fn perturbation(magnitude: int, coefficient: int) -> int {
    (coefficient * magnitude) / (GENE_UNIT as int)
}

/// The exact result of perturbing one gene: the perturbation is added
/// or subtracted according to the drawn sign.
pub open spec fn perturbed_gene(gene: i64, negative: bool, magnitude: int, coefficient: int) -> int {
    if negative {
        gene - perturbation(magnitude, coefficient)
    } else {
        gene + perturbation(magnitude, coefficient)
    }
}

/// Whether `new_gene` is the exact outcome of perturbing `gene` by
/// some drawable sign and magnitude.
pub open spec fn is_perturbation_of(new_gene: i64, gene: i64, coefficient: int) -> bool {
    exists|negative: bool, m: int|
        0 <= m < GENE_UNIT && new_gene as int == perturbed_gene(gene, negative, m, coefficient)
}

/// Mutation under its traditional name: each gene is perturbed with
/// probability `chance` by a uniformly distributed value in
/// `(-coefficient, +coefficient)`. The distribution is uniform, not a
/// normal one, despite the naming precedent.
pub struct GaussianMutation {
    /// Probability that a given gene is perturbed at all, on the
    /// fixed-point grid: `GENE_UNIT` stands for certainty.
    pub chance: i64,
    /// Scale of a perturbation, on the fixed-point grid.
    pub coefficient: i64,
}

impl GaussianMutation {
    /// The configuration is a probability and a non-negative scale.
    pub open spec fn wf(&self) -> bool {
        &&& 0 <= self.chance <= GENE_UNIT
        &&& 0 <= self.coefficient
    }

    pub fn new(chance: i64, coefficient: i64) -> (r: GaussianMutation)
        requires
            0 <= chance <= GENE_UNIT,
            0 <= coefficient,
        ensures
            r.chance == chance,
            r.coefficient == coefficient,
            r.wf(),
    {
        GaussianMutation { chance, coefficient }
    }

    /// The deterministic per-gene core: applies the exact perturbation
    /// the drawn sign and magnitude call for.
    pub fn perturb(gene: i64, negative: bool, magnitude: i64, coefficient: i64) -> (r: i64)
        requires
            0 <= magnitude < GENE_UNIT,
            0 <= coefficient,
            i64::MIN + coefficient <= gene as int <= i64::MAX - coefficient,
        ensures
            r as int == perturbed_gene(gene, negative, magnitude as int, coefficient as int),
            -coefficient <= r as int - gene as int <= coefficient,
    {
        proof {
            assert((coefficient as int) * (magnitude as int) <= 0x7fff_ffff_ffff_ffff
                * 0x100000) by (nonlinear_arith)
                requires
                    0 <= coefficient as int <= 0x7fff_ffff_ffff_ffff,
                    0 <= magnitude as int <= 0x100000,
            ;
        }
        let delta_wide: u128 = ((coefficient as u128) * (magnitude as u128)) / (
        GENE_UNIT as u128);
        proof {
            let c = coefficient as int;
            let m = magnitude as int;
            let u = GENE_UNIT as int;
            lemma_mul_inequality(0, m, c);
            lemma_div_is_ordered(0, m * c, u);
            lemma_mul_inequality(m, u, c);
            lemma_div_is_ordered(m * c, u * c, u);
            lemma_div_multiples_vanish(c, u);
            assert(m * c == c * m) by (nonlinear_arith);
            assert(u * c == c * u) by (nonlinear_arith);
            assert(0 <= perturbation(m, c) <= c);
            assert(delta_wide as int == perturbation(m, c));
        }
        let delta: i64 = delta_wide as i64;
        if negative {
            gene - delta
        } else {
            gene + delta
        }
    }

    /// Mutates the chromosome in place. For each gene independently: a
    /// uniform draw from `[0, 1)` decides against `chance` whether the
    /// gene is perturbed; if so, a fair coin draws the sign and a
    /// second uniform draw the magnitude. A `chance` of zero leaves the
    /// chromosome identical; a `chance` of one perturbs every gene by
    /// its drawn perturbation.
    pub fn mutate(&self, rng: &mut EngineRng, genes: &mut Vec<i64>)
        requires
            self.wf(),
            forall|i: int| 0 <= i < old(genes)@.len()
                ==> i64::MIN + self.coefficient <= #[trigger] old(genes)@[i] as int <= i64::MAX
                    - self.coefficient,
        ensures
            final(genes)@.len() == old(genes)@.len(),
            forall|i: int| 0 <= i < old(genes)@.len()
                ==> -self.coefficient <= #[trigger] final(genes)@[i] - old(genes)@[i]
                    <= self.coefficient,
            self.chance == 0 ==> final(genes)@ == old(genes)@,
            self.chance == GENE_UNIT ==> forall|i: int| 0 <= i < old(genes)@.len()
                ==> is_perturbation_of(
                    #[trigger] final(genes)@[i],
                    old(genes)@[i],
                    self.coefficient as int,
                ),
    {
        let mut k: usize = 0;
        while k < genes.len()
            invariant
                0 <= k <= genes@.len(),
                self.wf(),
                genes@.len() == old(genes)@.len(),
                forall|i: int| 0 <= i < old(genes)@.len()
                    ==> i64::MIN + self.coefficient <= #[trigger] old(genes)@[i] as int
                        <= i64::MAX - self.coefficient,
                forall|i: int| k <= i < genes@.len() ==> #[trigger] genes@[i] == old(genes)@[i],
                forall|i: int| 0 <= i < k
                    ==> -self.coefficient <= #[trigger] genes@[i] - old(genes)@[i]
                        <= self.coefficient,
                self.chance == 0 ==> forall|i: int| 0 <= i < k
                    ==> #[trigger] genes@[i] == old(genes)@[i],
                self.chance == GENE_UNIT ==> forall|i: int| 0 <= i < k
                    ==> is_perturbation_of(
                        #[trigger] genes@[i],
                        old(genes)@[i],
                        self.coefficient as int,
                    ),
            decreases genes@.len() - k,
        {
            let u: i64 = rng.next_unit_fraction();
            if u < self.chance {
                let negative: bool = rng.coin();
                let m: i64 = rng.next_unit_fraction();
                let g: i64 = genes[k];
                let ng: i64 = GaussianMutation::perturb(g, negative, m, self.coefficient);
                genes[k] = ng;
                proof {
                    assert(genes@[k as int] == ng);
                    assert(is_perturbation_of(ng, g, self.coefficient as int)) by {
                        assert(0 <= m && m < GENE_UNIT);
                        assert(ng as int == perturbed_gene(
                            g,
                            negative,
                            m as int,
                            self.coefficient as int,
                        ));
                    }
                }
            }
            k = k + 1;
        }
        proof {
            if self.chance == 0 {
                assert(genes@ =~= old(genes)@);
            }
        }
    }
}

/// Full perturbation changes the gene: wherever the drawn sign and
/// magnitude yield a nonzero perturbation, the mutated gene differs
/// from the original. The one excluded input is a draw whose
/// perturbation rounds to zero, the counterpart of the zero-measure
/// zero draw over the reals.
pub proof fn lemma_nonzero_perturbation_changes_gene(
    gene: i64,
    negative: bool,
    magnitude: int,
    coefficient: int,
)
    requires
        perturbation(magnitude, coefficient) != 0,
    ensures
        perturbed_gene(gene, negative, magnitude, coefficient) != gene,
{
}

} // verus!
