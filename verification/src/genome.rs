use vstd::prelude::*;
use crate::network::{
    Layer, LayerTopology, Network, Neuron, layer_wf, layers_out, layers_wf, matches_topology,
    neuron_out, layer_out,
};
use crate::WIDTH_LIMIT;

verus! {

/// Why a flat genome cannot be turned into a network.
#[derive(Clone, Copy, Debug, PartialEq, Eq, Structural)]
pub enum NetworkError {
    /// Fewer genes than the topology calls for.
    InsufficientWeights,
    /// More genes than the topology calls for.
    ExcessWeights,
}

/// The flat encoding of one neuron: its bias, then its weights in order.
pub open spec fn neuron_genes(n: Neuron) -> Seq<i64> {
    seq![n.bias] + n.weights@
}

/// The flat encoding of a row of neurons, in order.
pub open spec fn neurons_genes(ns: Seq<Neuron>) -> Seq<i64>
    decreases ns.len(),
{
    if ns.len() == 0 {
        Seq::empty()
    } else {
        neuron_genes(ns[0]) + neurons_genes(ns.drop_first())
    }
}

pub open spec fn layer_genes(l: Layer) -> Seq<i64> {
    neurons_genes(l.neurons@)
}

/// The flat encoding of a stack of layers, in order.
pub open spec fn layers_genes(ls: Seq<Layer>) -> Seq<i64>
    decreases ls.len(),
{
    if ls.len() == 0 {
        Seq::empty()
    } else {
        layer_genes(ls[0]) + layers_genes(ls.drop_first())
    }
}

/// The chromosome a network stands for: layer by layer, neuron by
/// neuron, bias first, then the weights in order.
pub open spec fn network_genes(n: Network) -> Seq<i64> {
    layers_genes(n.layers@)
}

/// The exact number of genes a topology calls for: for each consecutive
/// pair of widths `(a, b)`, a layer of `b` neurons costing `a + 1` genes
/// each.
pub open spec fn required_genes(top: Seq<LayerTopology>) -> int
    decreases top.len(),
{
    if top.len() < 2 {
        0
    } else {
        ((top[0].neurons + 1) * top[1].neurons) as int + required_genes(top.drop_first())
    }
}

proof fn lemma_neurons_genes_push(ns: Seq<Neuron>, x: Neuron)
    ensures
        neurons_genes(ns.push(x)) == neurons_genes(ns) + neuron_genes(x),
    decreases ns.len(),
{
    if ns.len() == 0 {
        assert(ns.push(x)[0] == x);
        assert(ns.push(x).drop_first() =~= Seq::<Neuron>::empty());
        assert(neurons_genes(Seq::<Neuron>::empty()) == Seq::<i64>::empty());
        assert(neurons_genes(ns.push(x)) =~= neurons_genes(ns) + neuron_genes(x));
    } else {
        assert(ns.push(x)[0] == ns[0]);
        assert(ns.push(x).drop_first() =~= ns.drop_first().push(x));
        lemma_neurons_genes_push(ns.drop_first(), x);
        assert(neurons_genes(ns.push(x)) =~= neurons_genes(ns) + neuron_genes(x));
    }
}

proof fn lemma_layers_genes_push(ls: Seq<Layer>, x: Layer)
    ensures
        layers_genes(ls.push(x)) == layers_genes(ls) + layer_genes(x),
    decreases ls.len(),
{
    if ls.len() == 0 {
        assert(ls.push(x)[0] == x);
        assert(ls.push(x).drop_first() =~= Seq::<Layer>::empty());
        assert(layers_genes(Seq::<Layer>::empty()) == Seq::<i64>::empty());
        assert(layers_genes(ls.push(x)) =~= layers_genes(ls) + layer_genes(x));
    } else {
        assert(ls.push(x)[0] == ls[0]);
        assert(ls.push(x).drop_first() =~= ls.drop_first().push(x));
        lemma_layers_genes_push(ls.drop_first(), x);
        assert(layers_genes(ls.push(x)) =~= layers_genes(ls) + layer_genes(x));
    }
}

fn push_neuron_genes(out: &mut Vec<i64>, n: &Neuron)
    ensures
        final(out)@ == old(out)@ + neuron_genes(*n),
{
    out.push(n.bias);
    let mut k: usize = 0;
    while k < n.weights.len()
        invariant
            0 <= k <= n.weights@.len(),
            out@ == old(out)@ + seq![n.bias] + n.weights@.take(k as int),
        decreases n.weights@.len() - k,
    {
        let w: i64 = n.weights[k];
        proof {
            assert(n.weights@.take(k as int + 1) =~= n.weights@.take(k as int).push(w));
            assert((old(out)@ + seq![n.bias] + n.weights@.take(k as int)).push(w)
                =~= old(out)@ + seq![n.bias] + n.weights@.take(k as int + 1));
        }
        out.push(w);
        k = k + 1;
    }
    proof {
        assert(n.weights@.take(n.weights@.len() as int) =~= n.weights@);
        assert(old(out)@ + seq![n.bias] + n.weights@ =~= old(out)@ + neuron_genes(*n));
    }
}

fn push_layer_genes(out: &mut Vec<i64>, l: &Layer)
    ensures
        final(out)@ == old(out)@ + layer_genes(*l),
{
    let mut k: usize = 0;
    while k < l.neurons.len()
        invariant
            0 <= k <= l.neurons@.len(),
            out@ == old(out)@ + neurons_genes(l.neurons@.take(k as int)),
        decreases l.neurons@.len() - k,
    {
        proof {
            assert(neurons_genes(l.neurons@.take(0)) =~= Seq::<i64>::empty());
        }
        push_neuron_genes(out, &l.neurons[k]);
        proof {
            assert(l.neurons@.take(k as int + 1) =~= l.neurons@.take(k as int).push(
                l.neurons@[k as int],
            ));
            lemma_neurons_genes_push(l.neurons@.take(k as int), l.neurons@[k as int]);
            assert(old(out)@ + neurons_genes(l.neurons@.take(k as int)) + neuron_genes(
                l.neurons@[k as int],
            ) =~= old(out)@ + neurons_genes(l.neurons@.take(k as int + 1)));
        }
        k = k + 1;
    }
    proof {
        assert(l.neurons@.take(l.neurons@.len() as int) =~= l.neurons@);
    }
}

impl Network {
    /// Flattens the network into its chromosome: layer by layer, neuron
    /// by neuron, bias first, then the weights in order. The exact
    /// inverse of `from_weights` on the same topology.
    pub fn weights(&self) -> (r: Vec<i64>)
        ensures
            r@ == network_genes(*self),
    {
        let mut out: Vec<i64> = Vec::new();
        let mut k: usize = 0;
        proof {
            assert(layers_genes(self.layers@.take(0)) =~= Seq::<i64>::empty());
            assert(out@ =~= Seq::<i64>::empty() + layers_genes(self.layers@.take(0)));
        }
        while k < self.layers.len()
            invariant
                0 <= k <= self.layers@.len(),
                out@ == layers_genes(self.layers@.take(k as int)),
            decreases self.layers@.len() - k,
        {
            push_layer_genes(&mut out, &self.layers[k]);
            proof {
                assert(self.layers@.take(k as int + 1) =~= self.layers@.take(k as int).push(
                    self.layers@[k as int],
                ));
                lemma_layers_genes_push(self.layers@.take(k as int), self.layers@[k as int]);
            }
            k = k + 1;
        }
        proof {
            assert(self.layers@.take(self.layers@.len() as int) =~= self.layers@);
        }
        out
    }
}

/// Reads one neuron, bias first then `prev` weights, starting at `start`.
fn parse_neuron(genes: &Vec<i64>, start: usize, prev: usize) -> (r: Neuron)
    requires
        start as int + prev as int + 1 <= genes@.len(),
    ensures
        r.weights@.len() == prev,
        neuron_genes(r) == genes@.subrange(start as int, start as int + prev as int + 1),
{
    let glen: usize = genes.len();
    let bias: i64 = genes[start];
    let mut ws: Vec<i64> = Vec::new();
    let mut w: usize = 0;
    proof {
        assert(ws@ =~= genes@.subrange(start as int + 1, start as int + 1));
    }
    while w < prev
        invariant
            0 <= w <= prev,
            start as int + prev as int + 1 <= genes@.len(),
            glen == genes@.len(),
            ws@.len() == w,
            ws@ == genes@.subrange(start as int + 1, start as int + 1 + w as int),
        decreases prev - w,
    {
        let g: i64 = genes[start + 1 + w];
        proof {
            assert(genes@.subrange(start as int + 1, start as int + 1 + (w as int + 1))
                =~= genes@.subrange(start as int + 1, start as int + 1 + w as int).push(g));
        }
        ws.push(g);
        w = w + 1;
    }
    let r = Neuron { bias, weights: ws };
    proof {
        assert(neuron_genes(r) =~= genes@.subrange(start as int, start as int + prev as int + 1));
    }
    r
}

/// Reads one layer of `cur` neurons of `prev` inputs each, starting at
/// `start`.
fn parse_layer(genes: &Vec<i64>, start: usize, prev: usize, cur: usize) -> (r: (Layer, usize))
    requires
        start as int + cur as int * (prev as int + 1) <= genes@.len(),
    ensures
        r.1 as int == start as int + cur as int * (prev as int + 1),
        r.0.neurons@.len() == cur,
        layer_wf(r.0, prev as int),
        layer_genes(r.0) == genes@.subrange(start as int, r.1 as int),
{
    let glen: usize = genes.len();
    let mut neurons: Vec<Neuron> = Vec::new();
    let mut n: usize = 0;
    let mut pos: usize = start;
    proof {
        assert(neurons_genes(neurons@) =~= genes@.subrange(start as int, start as int));
        assert(cur as int * (prev as int + 1) >= 0) by (nonlinear_arith)
            requires
                cur as int >= 0,
                prev as int + 1 >= 1,
        ;
    }
    while n < cur
        invariant
            0 <= n <= cur,
            start as int + cur as int * (prev as int + 1) <= genes@.len(),
            glen == genes@.len(),
            neurons@.len() == n,
            pos as int == start as int + n as int * (prev as int + 1),
            neurons_genes(neurons@) == genes@.subrange(start as int, pos as int),
            forall|j: int| 0 <= j < neurons@.len()
                ==> (#[trigger] neurons@[j]).weights@.len() == prev,
        decreases cur - n,
    {
        proof {
            assert((n as int + 1) * (prev as int + 1) == n as int * (prev as int + 1) + (
            prev as int + 1)) by (nonlinear_arith);
            assert((n as int + 1) * (prev as int + 1) <= cur as int * (prev as int + 1))
                by (nonlinear_arith)
                requires
                    n as int + 1 <= cur as int,
                    prev as int + 1 >= 0,
            ;
        }
        let neuron = parse_neuron(genes, pos, prev);
        proof {
            lemma_neurons_genes_push(neurons@, neuron);
            assert(genes@.subrange(start as int, pos as int) + genes@.subrange(
                pos as int,
                pos as int + prev as int + 1,
            ) =~= genes@.subrange(start as int, pos as int + prev as int + 1));
        }
        neurons.push(neuron);
        pos = pos + prev + 1;
        n = n + 1;
    }
    (Layer { neurons }, pos)
}

proof fn lemma_required_genes_nonneg(top: Seq<LayerTopology>)
    ensures
        required_genes(top) >= 0,
    decreases top.len(),
{
    if top.len() >= 2 {
        lemma_required_genes_nonneg(top.drop_first());
        assert((top[0].neurons + 1) * top[1].neurons >= 0) by (nonlinear_arith)
            requires
                top[0].neurons >= 0,
                top[1].neurons >= 0,
        ;
    }
}

/// One suffix step of `required_genes`.
proof fn lemma_required_genes_step(top: Seq<LayerTopology>, l: int)
    requires
        1 <= l,
        l + 1 <= top.len(),
    ensures
        required_genes(top.skip(l - 1)) == ((top[l - 1].neurons + 1) * top[l].neurons) as int
            + required_genes(top.skip(l)),
{
    let s = top.skip(l - 1);
    assert(s[0] == top[l - 1]);
    assert(s[1] == top[l]);
    assert(s.drop_first() =~= top.skip(l));
}

impl Network {
    /// Rebuilds a network from a topology and a flat chromosome: the
    /// exact inverse of `weights`. The gene count must match the
    /// topology exactly, in either direction, so that reconstruction is
    /// deterministic; on a mismatch the offending direction is named.
    pub fn from_weights(topology: &Vec<LayerTopology>, genes: &Vec<i64>) -> (r: Result<
        Network,
        NetworkError,
    >)
        requires
            topology@.len() >= 2,
            forall|i: int| 0 <= i < topology@.len()
                ==> (#[trigger] topology@[i]).neurons <= WIDTH_LIMIT,
        ensures
            r is Ok <==> genes@.len() == required_genes(topology@),
            r == Err::<Network, NetworkError>(NetworkError::InsufficientWeights) <==> (
            genes@.len() as int) < required_genes(topology@),
            r == Err::<Network, NetworkError>(NetworkError::ExcessWeights) <==> (
            genes@.len() as int) > required_genes(topology@),
            r matches Ok(net) ==> matches_topology(net, topology@),
            r matches Ok(net) ==> layers_wf(net.layers@, topology@[0].neurons as int),
            r matches Ok(net) ==> network_genes(net) == genes@,
    {
        proof {
            lemma_required_genes_nonneg(topology@);
        }
        let glen: usize = genes.len();
        // First pass: the exact number of genes the topology calls for.
        let mut needed: u128 = 0;
        let mut l: usize = 1;
        proof {
            assert(topology@.skip(0) =~= topology@);
        }
        while l < topology.len()
            invariant
                1 <= l <= topology@.len(),
                2 <= topology@.len(),
                forall|i: int| 0 <= i < topology@.len()
                    ==> (#[trigger] topology@[i]).neurons <= WIDTH_LIMIT,
                needed as int + required_genes(topology@.skip(l as int - 1)) == required_genes(
                    topology@,
                ),
                needed <= (l as u128 - 1) * 0x10_0000_0000_0000,
            decreases topology@.len() - l,
        {
            let prev: usize = topology[l - 1].neurons;
            let cur: usize = topology[l].neurons;
            proof {
                lemma_required_genes_step(topology@, l as int);
                assert((prev + 1) * cur <= 0x10_0000_0000_0000) by (nonlinear_arith)
                    requires
                        0 <= prev <= 1_000_000,
                        0 <= cur <= 1_000_000,
                ;
                assert((l as u128 - 1) * 0x10_0000_0000_0000 + 0x10_0000_0000_0000 == (
                l as u128) * 0x10_0000_0000_0000) by (nonlinear_arith);
                assert((l as u128) * 0x10_0000_0000_0000 < u128::MAX) by (nonlinear_arith)
                    requires
                        1 <= l <= 0xFFFF_FFFF_FFFF_FFFFu128,
                ;
            }
            needed = needed + ((prev as u128) + 1) * (cur as u128);
            l = l + 1;
        }
        proof {
            assert(topology@.skip(topology@.len() - 1).len() == 1);
            assert(required_genes(topology@.skip(topology@.len() - 1)) == 0);
        }
        if (glen as u128) < needed {
            return Err(NetworkError::InsufficientWeights);
        }
        if (glen as u128) > needed {
            return Err(NetworkError::ExcessWeights);
        }
        // Second pass: carve the genes into layers of neurons.
        let mut built: Vec<Layer> = Vec::new();
        let mut pos: usize = 0;
        let mut l: usize = 1;
        proof {
            assert(topology@.skip(0) =~= topology@);
            assert(layers_genes(built@) =~= genes@.take(0));
        }
        while l < topology.len()
            invariant
                1 <= l <= topology@.len(),
                2 <= topology@.len(),
                forall|i: int| 0 <= i < topology@.len()
                    ==> (#[trigger] topology@[i]).neurons <= WIDTH_LIMIT,
                glen == genes@.len(),
                built@.len() == l - 1,
                pos <= glen,
                pos as int + required_genes(topology@.skip(l as int - 1)) == genes@.len(),
                layers_genes(built@) == genes@.take(pos as int),
                forall|j: int| 0 <= j < built@.len()
                    ==> (#[trigger] built@[j]).neurons@.len() == topology@[j + 1].neurons,
                forall|j: int| 0 <= j < built@.len()
                    ==> layer_wf(#[trigger] built@[j], topology@[j].neurons as int),
                layers_wf(built@, topology@[0].neurons as int),
            decreases topology@.len() - l,
        {
            let prev: usize = topology[l - 1].neurons;
            let cur: usize = topology[l].neurons;
            proof {
                lemma_required_genes_step(topology@, l as int);
                lemma_required_genes_nonneg(topology@.skip(l as int));
                assert((cur as int) * (prev as int + 1) == (prev as int + 1) * (cur as int))
                    by (nonlinear_arith);
            }
            let (layer, newpos) = parse_layer(genes, pos, prev, cur);
            proof {
                lemma_layers_genes_push(built@, layer);
                assert(genes@.take(pos as int) + genes@.subrange(pos as int, newpos as int)
                    =~= genes@.take(newpos as int));
                crate::network::lemma_layers_wf_push(
                    built@,
                    topology@[0].neurons as int,
                    layer,
                    prev as int,
                );
            }
            built.push(layer);
            pos = newpos;
            l = l + 1;
        }
        proof {
            assert(topology@.skip(topology@.len() - 1).len() == 1);
            assert(required_genes(topology@.skip(topology@.len() - 1)) == 0);
            assert(genes@.take(genes@.len() as int) =~= genes@);
        }
        Ok(Network { layers: built })
    }
}


proof fn lemma_concat_split(a: Seq<i64>, b: Seq<i64>, c: Seq<i64>, d: Seq<i64>)
    requires
        a + b == c + d,
        a.len() == c.len(),
    ensures
        a == c,
        b == d,
{
    broadcast use vstd::seq_lib::group_seq_properties;

    assert((a + b).len() == (c + d).len());
    assert(a =~= c) by {
        assert forall|i: int| 0 <= i < a.len() implies a[i] == c[i] by {
            assert((a + b)[i] == a[i]);
            assert((c + d)[i] == c[i]);
        }
    }
    assert((a + b).skip(a.len() as int) =~= b);
    assert((c + d).skip(c.len() as int) =~= d);
    assert((a + b).skip(a.len() as int) == (c + d).skip(c.len() as int));
}

proof fn lemma_neurons_genes_len(ns: Seq<Neuron>, w: int)
    requires
        w >= 0,
        forall|i: int| 0 <= i < ns.len() ==> (#[trigger] ns[i]).weights@.len() == w,
    ensures
        neurons_genes(ns).len() == ns.len() * (w + 1),
    decreases ns.len(),
{
    if ns.len() == 0 {
    } else {
        assert forall|i: int| 0 <= i < ns.drop_first().len() implies (#[trigger] ns.drop_first()[
        i]).weights@.len() == w by {
            assert(ns.drop_first()[i] == ns[i + 1]);
        }
        lemma_neurons_genes_len(ns.drop_first(), w);
        assert(neuron_genes(ns[0]).len() == 1 + w);
        assert((ns.len() - 1) * (w + 1) + (w + 1) == ns.len() * (w + 1)) by (nonlinear_arith);
    }
}

proof fn lemma_neurons_components_equal(na: Seq<Neuron>, nb: Seq<Neuron>, w: int)
    requires
        w >= 0,
        na.len() == nb.len(),
        forall|i: int| 0 <= i < na.len() ==> (#[trigger] na[i]).weights@.len() == w,
        forall|i: int| 0 <= i < nb.len() ==> (#[trigger] nb[i]).weights@.len() == w,
        neurons_genes(na) == neurons_genes(nb),
    ensures
        forall|i: int| 0 <= i < na.len() ==> (#[trigger] na[i]).bias == nb[i].bias,
        forall|i: int| 0 <= i < na.len() ==> (#[trigger] na[i]).weights@ == nb[i].weights@,
    decreases na.len(),
{
    if na.len() > 0 {
        assert(neuron_genes(na[0]).len() == 1 + w);
        assert(neuron_genes(nb[0]).len() == 1 + w);
        lemma_concat_split(
            neuron_genes(na[0]),
            neurons_genes(na.drop_first()),
            neuron_genes(nb[0]),
            neurons_genes(nb.drop_first()),
        );
        assert(na[0].bias == neuron_genes(na[0])[0]);
        assert(nb[0].bias == neuron_genes(nb[0])[0]);
        assert(na[0].weights@ =~= nb[0].weights@) by {
            assert forall|j: int| 0 <= j < w implies na[0].weights@[j] == nb[0].weights@[j] by {
                assert(neuron_genes(na[0])[j + 1] == na[0].weights@[j]);
                assert(neuron_genes(nb[0])[j + 1] == nb[0].weights@[j]);
            }
        }
        assert forall|i: int| 0 <= i < na.drop_first().len() implies (#[trigger] na.drop_first()[
        i]).weights@.len() == w by {
            assert(na.drop_first()[i] == na[i + 1]);
        }
        assert forall|i: int| 0 <= i < nb.drop_first().len() implies (#[trigger] nb.drop_first()[
        i]).weights@.len() == w by {
            assert(nb.drop_first()[i] == nb[i + 1]);
        }
        lemma_neurons_components_equal(na.drop_first(), nb.drop_first(), w);
        assert forall|i: int| 0 <= i < na.len() implies (#[trigger] na[i]).bias == nb[i].bias
            && na[i].weights@ == nb[i].weights@ by {
            if i > 0 {
                assert(na.drop_first()[i - 1] == na[i]);
                assert(nb.drop_first()[i - 1] == nb[i]);
            }
        }
    }
}

proof fn lemma_layers_behaviour(a: Seq<Layer>, b: Seq<Layer>, w0: int, x: Seq<int>)
    requires
        w0 >= 0,
        a.len() == b.len(),
        layers_wf(a, w0),
        layers_wf(b, w0),
        forall|l: int| 0 <= l < a.len()
            ==> (#[trigger] a[l]).neurons@.len() == b[l].neurons@.len(),
        layers_genes(a) == layers_genes(b),
    ensures
        layers_out(a, x) == layers_out(b, x),
    decreases a.len(),
{
    if a.len() > 0 {
        let na = a[0].neurons@;
        let nb = b[0].neurons@;
        assert(layer_wf(a[0], w0));
        assert(layer_wf(b[0], w0));
        lemma_neurons_genes_len(na, w0);
        lemma_neurons_genes_len(nb, w0);
        lemma_concat_split(
            layer_genes(a[0]),
            layers_genes(a.drop_first()),
            layer_genes(b[0]),
            layers_genes(b.drop_first()),
        );
        lemma_neurons_components_equal(na, nb, w0);
        assert(layer_out(a[0], x) =~= layer_out(b[0], x)) by {
            assert forall|i: int| 0 <= i < na.len() implies neuron_out(na[i], x) == neuron_out(
                nb[i],
                x,
            ) by {
                assert(na[i].bias == nb[i].bias);
                assert(na[i].weights@ == nb[i].weights@);
            }
        }
        assert forall|l: int| 0 <= l < a.drop_first().len() implies (#[trigger] a.drop_first()[
        l]).neurons@.len() == b.drop_first()[l].neurons@.len() by {
            assert(a.drop_first()[l] == a[l + 1]);
            assert(b.drop_first()[l] == b[l + 1]);
        }
        lemma_layers_behaviour(
            a.drop_first(),
            b.drop_first(),
            na.len() as int,
            layer_out(a[0], x),
        );
    }
}

/// The law of the genome bridge: two networks that match the same
/// topology and flatten to the same chromosome compute the same output
/// vector on every input. Since `from_weights(topology, n.weights())`
/// returns a network matching the topology with exactly `n`'s genes,
/// the rebuilt network propagates every input exactly as `n` does.
pub proof fn lemma_genome_round_trip(a: Network, b: Network, top: Seq<LayerTopology>, x: Seq<int>)
    requires
        top.len() >= 2,
        matches_topology(a, top),
        matches_topology(b, top),
        layers_wf(a.layers@, top[0].neurons as int),
        layers_wf(b.layers@, top[0].neurons as int),
        network_genes(a) == network_genes(b),
    ensures
        layers_out(a.layers@, x) == layers_out(b.layers@, x),
{
    assert forall|l: int| 0 <= l < a.layers@.len() implies (#[trigger] a.layers@[
    l]).neurons@.len() == b.layers@[l].neurons@.len() by {
        assert(a.layers@[l].neurons@.len() == top[l + 1].neurons);
        assert(b.layers@[l].neurons@.len() == top[l + 1].neurons);
    }
    lemma_layers_behaviour(a.layers@, b.layers@, top[0].neurons as int, x);
}

proof fn lemma_layers_genes_required(ls: Seq<Layer>, top: Seq<LayerTopology>)
    requires
        ls.len() + 1 == top.len(),
        forall|l: int| 0 <= l < ls.len()
            ==> (#[trigger] ls[l]).neurons@.len() == top[l + 1].neurons,
        forall|l: int| 0 <= l < ls.len() ==> layer_wf(#[trigger] ls[l], top[l].neurons as int),
    ensures
        layers_genes(ls).len() == required_genes(top),
    decreases ls.len(),
{
    if ls.len() == 0 {
    } else {
        assert(layer_wf(ls[0], top[0].neurons as int));
        lemma_neurons_genes_len(ls[0].neurons@, top[0].neurons as int);
        assert forall|l: int| 0 <= l < ls.drop_first().len() implies (#[trigger] ls.drop_first()[
        l]).neurons@.len() == top.drop_first()[l + 1].neurons by {
            assert(ls.drop_first()[l] == ls[l + 1]);
            assert(top.drop_first()[l + 1] == top[l + 2]);
        }
        assert forall|l: int| 0 <= l < ls.drop_first().len() implies layer_wf(
            #[trigger] ls.drop_first()[l],
            top.drop_first()[l].neurons as int,
        ) by {
            assert(ls.drop_first()[l] == ls[l + 1]);
            assert(top.drop_first()[l] == top[l + 1]);
        }
        lemma_layers_genes_required(ls.drop_first(), top.drop_first());
        assert(top[1].neurons as int * (top[0].neurons as int + 1) == (top[0].neurons as int + 1)
            * (top[1].neurons as int)) by (nonlinear_arith);
    }
}

/// A network that matches a topology flattens to exactly the number of
/// genes the topology calls for: `from_weights(topology, n.weights())`
/// always succeeds.
pub proof fn lemma_weights_count(n: Network, top: Seq<LayerTopology>)
    requires
        matches_topology(n, top),
    ensures
        network_genes(n).len() == required_genes(top),
{
    lemma_layers_genes_required(n.layers@, top);
}

} // verus!
