use neuroevo::GENE_UNIT;
use neuroevo::crossover::UniformCrossover;
use neuroevo::engine::GeneticAlgorithm;
use neuroevo::individual::{Individual, TestIndividual};
use neuroevo::mutation::GaussianMutation;
use neuroevo::rng::EngineRng;
use neuroevo::selection::{RouletteWheelSelection, SelectionError, SelectionMethod};

fn unit(x: f64) -> i64 {
    (x * GENE_UNIT as f64).round() as i64
}

#[test]
fn test() {
    let method = RouletteWheelSelection::new();
    let mut rng = EngineRng::from_seed(0);

    let population = vec![
        TestIndividual::new(unit(2.0)),
        TestIndividual::new(unit(1.0)),
        TestIndividual::new(unit(4.0)),
        TestIndividual::new(unit(3.0)),
    ];

    let mut histogram = [0usize; 4];
    let draws = 1000;
    for _ in 0..draws {
        let chosen = method.select(&mut rng, &population).unwrap();
        let share = chosen.fitness() / GENE_UNIT;
        histogram[(share - 1) as usize] += 1;
    }

    // Selection frequency approaches the fitness share of the total
    // (1/10, 2/10, 3/10, 4/10) as the number of draws grows.
    let expected = [0.1f64, 0.2, 0.3, 0.4];
    for k in 0..4 {
        let freq = histogram[k] as f64 / draws as f64;
        assert!(
            (freq - expected[k]).abs() < 0.05,
            "fitness {} drawn with frequency {}, expected near {}",
            k + 1,
            freq,
            expected[k]
        );
    }
}

#[test]
fn selection_frequencies_converge() {
    let method = RouletteWheelSelection::new();
    let mut rng = EngineRng::from_seed(7);

    let population = vec![
        TestIndividual::new(unit(2.0)),
        TestIndividual::new(unit(1.0)),
        TestIndividual::new(unit(4.0)),
        TestIndividual::new(unit(3.0)),
    ];

    let mut histogram = [0usize; 4];
    let draws = 10_000;
    for _ in 0..draws {
        let chosen = method.select(&mut rng, &population).unwrap();
        let share = chosen.fitness() / GENE_UNIT;
        histogram[(share - 1) as usize] += 1;
    }

    let expected = [0.1f64, 0.2, 0.3, 0.4];
    for k in 0..4 {
        let freq = histogram[k] as f64 / draws as f64;
        assert!(
            (freq - expected[k]).abs() < 0.03,
            "fitness {} drawn with frequency {}, expected near {}",
            k + 1,
            freq,
            expected[k]
        );
    }
}

#[test]
fn selection_rejects_negative_fitness() {
    let method = RouletteWheelSelection::new();
    let mut rng = EngineRng::from_seed(1);
    let population = vec![TestIndividual::new(unit(1.0)), TestIndividual::new(-1)];
    let r = method.select(&mut rng, &population);
    assert_eq!(r.unwrap_err(), SelectionError::NegativeFitness);
}

#[test]
fn selection_rejects_all_zero_fitness() {
    let method = RouletteWheelSelection::new();
    let mut rng = EngineRng::from_seed(1);
    let population = vec![TestIndividual::new(0), TestIndividual::new(0)];
    let r = method.select(&mut rng, &population);
    assert_eq!(r.unwrap_err(), SelectionError::ZeroFitnessTotal);
}

#[test]
fn crossover_with_mask_is_exact() {
    let a = vec![10, 20, 30, 40];
    let b = vec![-1, -2, -3, -4];
    let mask = vec![true, false, false, true];
    let child = UniformCrossover::crossover_with(&mask, &a, &b);
    assert_eq!(child, vec![10, -2, -3, 40]);
}

#[test]
fn crossover_copies_genes_from_parents() {
    let crossover = UniformCrossover::new();
    let mut rng = EngineRng::from_seed(3);
    let a: Vec<i64> = (0..100).collect();
    let b: Vec<i64> = (0..100).map(|g| g + 1000).collect();
    let child = crossover.crossover(&mut rng, &a, &b);
    assert_eq!(child.len(), 100);
    let mut from_a = 0;
    let mut from_b = 0;
    for i in 0..100 {
        // Every child gene is an exact copy of one parent's gene at
        // the same index, never a blend.
        assert!(child[i] == a[i] || child[i] == b[i]);
        if child[i] == a[i] {
            from_a += 1;
        } else {
            from_b += 1;
        }
    }
    // A fair per-gene coin uses both parents.
    assert!(from_a > 0 && from_b > 0);
}

#[test]
fn mutation_with_zero_chance_is_identity() {
    let mutation = GaussianMutation::new(0, unit(3.0));
    let mut rng = EngineRng::from_seed(4);
    let original: Vec<i64> = vec![unit(1.0), unit(-2.5), 0, unit(0.001), i64::MAX / 2];
    let mut genes = original.clone();
    mutation.mutate(&mut rng, &mut genes);
    assert_eq!(genes, original);
}

#[test]
fn mutation_with_full_chance_perturbs_every_gene() {
    let mutation = GaussianMutation::new(GENE_UNIT, unit(10.0));
    let mut rng = EngineRng::from_seed(5);
    let original: Vec<i64> = vec![unit(1.0), unit(-2.5), 0, unit(4.0), unit(-0.25)];
    let mut genes = original.clone();
    mutation.mutate(&mut rng, &mut genes);
    assert_eq!(genes.len(), original.len());
    for i in 0..genes.len() {
        // The drawn perturbation is nonzero except on the vanishing
        // draw of a zero magnitude; with this seed every gene moves,
        // and never by more than the coefficient.
        assert_ne!(genes[i], original[i]);
        assert!((genes[i] - original[i]).abs() <= unit(10.0));
    }
}

#[test]
fn evolve_keeps_population_size_and_chromosome_length() {
    let ga = GeneticAlgorithm::new(
        RouletteWheelSelection::new(),
        UniformCrossover::new(),
        GaussianMutation::new(GENE_UNIT / 2, unit(0.5)),
    );
    let mut rng = EngineRng::from_seed(6);
    let population = vec![
        TestIndividual::with_chromosome(unit(1.0), vec![unit(1.0), unit(2.0), unit(3.0)]),
        TestIndividual::with_chromosome(unit(2.0), vec![unit(-1.0), unit(-2.0), unit(-3.0)]),
        TestIndividual::with_chromosome(unit(3.0), vec![unit(0.5), unit(0.25), unit(0.125)]),
    ];
    let out = ga.evolve(&mut rng, &population).unwrap();
    assert_eq!(out.len(), population.len());
    for child in &out {
        let genes = child.chromosome();
        assert_eq!(genes.len(), 3);
        for i in 0..genes.len() {
            // Each child gene stays within one mutation step of some
            // parent's gene at the same index.
            let near_some_parent = population
                .iter()
                .any(|p| (genes[i] - p.chromosome()[i]).abs() <= unit(0.5));
            assert!(near_some_parent);
        }
    }
}

#[test]
fn evolve_surfaces_invalid_fitness() {
    let ga = GeneticAlgorithm::new(
        RouletteWheelSelection::new(),
        UniformCrossover::new(),
        GaussianMutation::new(0, 0),
    );
    let mut rng = EngineRng::from_seed(8);
    let population = vec![
        TestIndividual::with_chromosome(0, vec![1, 2]),
        TestIndividual::with_chromosome(0, vec![3, 4]),
    ];
    let r = ga.evolve(&mut rng, &population);
    assert_eq!(r.unwrap_err(), SelectionError::ZeroFitnessTotal);
}
