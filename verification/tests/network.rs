use neuroevo::GENE_UNIT;
use neuroevo::genome::NetworkError;
use neuroevo::network::{Layer, LayerTopology, Network, Neuron};
use neuroevo::rng::EngineRng;

fn unit(x: f64) -> i64 {
    (x * GENE_UNIT as f64).round() as i64
}

#[test]
fn lib_test() {
    let neuron = Neuron::new(unit(0.5), vec![unit(-0.3), unit(0.8)]);

    // The floor at zero (our rectified linear activation) holds exactly.
    assert_eq!(neuron.propagate(&vec![unit(-10.0), unit(-10.0)]), 0);

    // `0.5` and `1.0` chosen by a fair dice roll: the output is exactly
    // (-0.3 * 0.5) + (0.8 * 1.0) + 0.5 on the fixed-point grid.
    assert_eq!(
        neuron.propagate(&vec![unit(0.5), unit(1.0)]),
        unit((-0.3 * 0.5) + (0.8 * 1.0) + 0.5)
    );
}

#[test]
fn neuron_output_is_exact() {
    let neuron = Neuron::new(unit(0.5), vec![unit(-0.3), unit(0.8)]);
    assert_eq!(neuron.propagate(&vec![unit(0.5), unit(1.0)]), 1_150_000);
}

#[test]
fn random_network_matches_topology() {
    let mut rng = EngineRng::from_seed(10);
    let topology = vec![
        LayerTopology { neurons: 3 },
        LayerTopology { neurons: 2 },
        LayerTopology { neurons: 1 },
    ];
    let net = Network::random(&mut rng, &topology);
    let genes = net.weights();
    // (3 + 1) * 2 genes for the hidden layer, (2 + 1) * 1 for the output.
    assert_eq!(genes.len(), (3 + 1) * 2 + (2 + 1) * 1);
    // Every random gene is drawn from [-1.0, 1.0] on the grid.
    for g in &genes {
        assert!(-GENE_UNIT <= *g && *g <= GENE_UNIT);
    }
    let out = net.propagate(vec![unit(0.5), unit(-0.5), unit(1.0)]);
    assert_eq!(out.len(), 1);
}

#[test]
fn weights_round_trip_preserves_propagation() {
    let mut rng = EngineRng::from_seed(11);
    let topology = vec![
        LayerTopology { neurons: 4 },
        LayerTopology { neurons: 3 },
        LayerTopology { neurons: 2 },
    ];
    let net = Network::random(&mut rng, &topology);
    let genes = net.weights();
    let rebuilt = Network::from_weights(&topology, &genes).unwrap();
    assert_eq!(rebuilt.weights(), genes);
    let inputs = vec![unit(1.0), unit(-0.5), unit(0.25), unit(0.75)];
    assert_eq!(net.propagate(inputs.clone()), rebuilt.propagate(inputs));
}

#[test]
fn from_weights_is_the_exact_inverse_of_weights() {
    let topology = vec![LayerTopology { neurons: 2 }, LayerTopology { neurons: 1 }];
    let genes = vec![unit(0.5), unit(-0.3), unit(0.8)];
    let net = Network::from_weights(&topology, &genes).unwrap();
    assert_eq!(net.weights(), genes);
    // One neuron, bias 0.5, weights [-0.3, 0.8]: the neuron scenario.
    assert_eq!(net.propagate(vec![unit(0.5), unit(1.0)]), vec![unit(1.15)]);
    assert_eq!(net.propagate(vec![unit(-10.0), unit(-10.0)]), vec![0]);
}

#[test]
fn from_weights_rejects_too_few_genes() {
    let topology = vec![LayerTopology { neurons: 2 }, LayerTopology { neurons: 1 }];
    let genes = vec![unit(0.5), unit(-0.3)];
    let r = Network::from_weights(&topology, &genes);
    assert_eq!(r.unwrap_err(), NetworkError::InsufficientWeights);
}

#[test]
fn from_weights_rejects_excess_genes() {
    let topology = vec![LayerTopology { neurons: 2 }, LayerTopology { neurons: 1 }];
    let genes = vec![unit(0.5), unit(-0.3), unit(0.8), unit(0.1)];
    let r = Network::from_weights(&topology, &genes);
    assert_eq!(r.unwrap_err(), NetworkError::ExcessWeights);
}

#[test]
fn layer_propagates_each_neuron() {
    let layer = Layer::new(vec![
        Neuron::new(0, vec![GENE_UNIT, 0]),
        Neuron::new(0, vec![0, GENE_UNIT]),
        Neuron::new(unit(-5.0), vec![0, 0]),
    ]);
    let out = layer.propagate(vec![unit(2.0), unit(-3.0)]);
    // Identity weights pass the input through; the floor clips the
    // negative input and the negative bias to zero.
    assert_eq!(out, vec![unit(2.0), 0, 0]);
}

#[test]
fn multi_layer_propagation_chains_exactly() {
    // First layer doubles its single input; second layer adds 1.0.
    let net = Network::new(vec![
        Layer::new(vec![Neuron::new(0, vec![2 * GENE_UNIT])]),
        Layer::new(vec![Neuron::new(unit(1.0), vec![GENE_UNIT])]),
    ]);
    assert_eq!(net.propagate(vec![unit(1.5)]), vec![unit(4.0)]);
}
