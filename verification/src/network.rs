use vstd::prelude::*;
use crate::rng::EngineRng;
use crate::{GENE_UNIT, VALUE_LIMIT, WIDTH_LIMIT};

verus! {

/// Width (neuron count) of one layer of a feedforward network.
pub struct LayerTopology {
    pub neurons: usize,
}

/// One neuron: a bias and one weight per input, all on the `GENE_UNIT`
/// fixed-point grid.
#[derive(Debug)]
pub struct Neuron {
    pub bias: i64,
    pub weights: Vec<i64>,
}

/// One layer: an ordered row of neurons sharing the same input vector.
#[derive(Debug)]
pub struct Layer {
    pub neurons: Vec<Neuron>,
}

/// A feedforward network: an ordered sequence of layers.
#[derive(Debug)]
pub struct Network {
    pub layers: Vec<Layer>,
}

/// The exact integers a sequence of fixed-point scalars stands for.
pub open spec fn int_view(s: Seq<i64>) -> Seq<int> {
    Seq::new(s.len(), |i: int| s[i] as int)
}

/// Dot product of the first `k` coordinates of `w` and `x`.
pub open spec fn dot_prefix(w: Seq<i64>, x: Seq<int>, k: int) -> int
    decreases k,
{
    if k <= 0 {
        0
    } else {
        dot_prefix(w, x, k - 1) + (w[k - 1] as int) * x[k - 1]
    }
}

/// A scalar the substrate accepts: bounded so that every product of two
/// of them fits comfortably inside `i128` accumulation.
pub open spec fn scalar_ok(v: int) -> bool {
    -(VALUE_LIMIT as int) <= v <= VALUE_LIMIT as int
}

pub open spec fn vals_ok(x: Seq<int>) -> bool {
    &&& x.len() <= WIDTH_LIMIT
    &&& forall|i: int| 0 <= i < x.len() ==> scalar_ok(x[i])
}

pub open spec fn neuron_ok(n: Neuron) -> bool {
    &&& n.weights@.len() <= WIDTH_LIMIT
    &&& scalar_ok(n.bias as int)
    &&& forall|i: int| 0 <= i < n.weights@.len() ==> scalar_ok(n.weights@[i] as int)
}

pub open spec fn layer_ok(l: Layer) -> bool {
    &&& l.neurons@.len() <= WIDTH_LIMIT
    &&& forall|i: int| 0 <= i < l.neurons@.len() ==> neuron_ok(l.neurons@[i])
}

/// Every neuron of the layer takes exactly `in_width` inputs.
pub open spec fn layer_wf(l: Layer, in_width: int) -> bool {
    forall|i: int| 0 <= i < l.neurons@.len() ==> l.neurons@[i].weights@.len() == in_width
}

/// The widths of consecutive layers chain together, starting from
/// an input vector of width `in_width`.
pub open spec fn layers_wf(ls: Seq<Layer>, in_width: int) -> bool
    decreases ls.len(),
{
    if ls.len() == 0 {
        true
    } else {
        layer_wf(ls[0], in_width) && layers_wf(ls.drop_first(), ls[0].neurons@.len() as int)
    }
}

/// The exact pre-activation of a neuron on input `x`, at scale
/// `GENE_UNIT` squared: the bias is lifted onto the product scale.
pub open spec fn neuron_pre(n: Neuron, x: Seq<int>) -> int {
    (n.bias as int) * (GENE_UNIT as int) + dot_prefix(n.weights@, x, n.weights@.len() as int)
}

/// The exact output of a neuron: rectified linear activation (the floor
/// at zero), scaled back down to the `GENE_UNIT` grid.
pub open spec fn neuron_out(n: Neuron, x: Seq<int>) -> int {
    if neuron_pre(n, x) >= 0 {
        neuron_pre(n, x) / (GENE_UNIT as int)
    } else {
        0
    }
}

/// The exact output vector of one layer on input `x`.
pub open spec fn layer_out(l: Layer, x: Seq<int>) -> Seq<int> {
    Seq::new(l.neurons@.len(), |i: int| neuron_out(l.neurons@[i], x))
}

/// The exact output of a stack of layers folded over input `x`.
pub open spec fn layers_out(ls: Seq<Layer>, x: Seq<int>) -> Seq<int>
    decreases ls.len(),
{
    if ls.len() == 0 {
        x
    } else {
        layers_out(ls.drop_first(), layer_out(ls[0], x))
    }
}

/// Every value flowing through the stack, inputs, intermediates and
/// outputs alike, stays within `VALUE_LIMIT`: the machine-limit
/// precondition under which propagation is exact.
pub open spec fn layers_fit(ls: Seq<Layer>, x: Seq<int>) -> bool
    decreases ls.len(),
{
    if ls.len() == 0 {
        vals_ok(x)
    } else {
        vals_ok(x) && layer_ok(ls[0]) && layers_fit(ls.drop_first(), layer_out(ls[0], x))
    }
}

proof fn lemma_mul_bound(a: int, b: int, la: int, lb: int)
    by (nonlinear_arith)
    requires
        -la <= a <= la,
        -lb <= b <= lb,
        0 <= la,
        0 <= lb,
    ensures
        -(la * lb) <= a * b <= la * lb,
{
}

proof fn lemma_dot_prefix_bound(w: Seq<i64>, x: Seq<int>, k: int)
    requires
        0 <= k <= w.len(),
        k <= x.len(),
        forall|i: int| 0 <= i < w.len() ==> scalar_ok(w[i] as int),
        forall|i: int| 0 <= i < x.len() ==> scalar_ok(x[i]),
    ensures
        -(k * 1_000_000_000_000_000_000_000_000_000_000) <= dot_prefix(w, x, k)
            <= k * 1_000_000_000_000_000_000_000_000_000_000,
    decreases k,
{
    if k > 0 {
        lemma_dot_prefix_bound(w, x, k - 1);
        lemma_mul_bound(w[k - 1] as int, x[k - 1], VALUE_LIMIT as int, VALUE_LIMIT as int);
    }
}

impl Neuron {
    pub fn new(bias: i64, weights: Vec<i64>) -> (r: Neuron)
        ensures
            r.bias == bias,
            r.weights == weights,
    {
        Neuron { bias, weights }
    }

    /// A neuron with every gene drawn uniformly from `[-1.0, 1.0]`
    /// on the fixed-point grid.
    pub fn random(rng: &mut EngineRng, inputs: usize) -> (r: Neuron)
        ensures
            r.weights@.len() == inputs,
            neuron_in_unit(r),
    {
        let bias: i64 = rng.next_between(-GENE_UNIT, GENE_UNIT);
        let mut weights: Vec<i64> = Vec::new();
        let mut k: usize = 0;
        while k < inputs
            invariant
                0 <= k <= inputs,
                weights@.len() == k,
                forall|i: int| 0 <= i < k ==> -GENE_UNIT <= #[trigger] weights@[i] <= GENE_UNIT,
            decreases inputs - k,
        {
            let w: i64 = rng.next_between(-GENE_UNIT, GENE_UNIT);
            weights.push(w);
            k = k + 1;
        }
        Neuron { bias, weights }
    }

    /// The neuron's exact fixed-point output: the floor at zero of the
    /// bias plus the weighted sum of the inputs.
    pub fn propagate(&self, inputs: &Vec<i64>) -> (r: i64)
        requires
            neuron_ok(*self),
            inputs@.len() == self.weights@.len(),
            vals_ok(int_view(inputs@)),
            neuron_out(*self, int_view(inputs@)) <= VALUE_LIMIT as int,
        ensures
            r as int == neuron_out(*self, int_view(inputs@)),
            0 <= r <= VALUE_LIMIT,
    {
        let ghost x = int_view(inputs@);
        let mut acc: i128 = 0;
        let mut k: usize = 0;
        while k < self.weights.len()
            invariant
                0 <= k <= self.weights@.len(),
                neuron_ok(*self),
                inputs@.len() == self.weights@.len(),
                x == int_view(inputs@),
                vals_ok(x),
                acc == dot_prefix(self.weights@, x, k as int),
                -((k as int) * 1_000_000_000_000_000_000_000_000_000_000) <= acc
                    <= (k as int) * 1_000_000_000_000_000_000_000_000_000_000,
            decreases self.weights@.len() - k,
        {
            proof {
                lemma_mul_bound(
                    self.weights@[k as int] as int,
                    x[k as int],
                    VALUE_LIMIT as int,
                    VALUE_LIMIT as int,
                );
            }
            acc = acc + (self.weights[k] as i128) * (inputs[k] as i128);
            k = k + 1;
        }
        let pre: i128 = (self.bias as i128) * (GENE_UNIT as i128) + acc;
        proof {
            assert(pre == neuron_pre(*self, x));
        }
        if pre < 0 {
            0
        } else {
            let q: u128 = (pre as u128) / (GENE_UNIT as u128);
            proof {
                assert(q == neuron_pre(*self, x) / (GENE_UNIT as int));
            }
            q as i64
        }
    }
}

/// Every gene of the neuron lies in the unit interval `[-1.0, 1.0]`
/// of the fixed-point grid.
pub open spec fn neuron_in_unit(n: Neuron) -> bool {
    &&& -GENE_UNIT <= n.bias <= GENE_UNIT
    &&& forall|i: int| 0 <= i < n.weights@.len() ==> -GENE_UNIT <= #[trigger] n.weights@[i] <= GENE_UNIT
}

pub open spec fn layer_in_unit(l: Layer) -> bool {
    forall|i: int| 0 <= i < l.neurons@.len() ==> neuron_in_unit(#[trigger] l.neurons@[i])
}

pub open spec fn network_in_unit(n: Network) -> bool {
    forall|l: int| 0 <= l < n.layers@.len() ==> layer_in_unit(#[trigger] n.layers@[l])
}

/// The network's shape is the one the topology describes: one layer per
/// consecutive pair of widths, each neuron fed by the previous width.
pub open spec fn matches_topology(n: Network, top: Seq<LayerTopology>) -> bool {
    &&& n.layers@.len() + 1 == top.len()
    &&& forall|l: int| 0 <= l < n.layers@.len()
        ==> (#[trigger] n.layers@[l]).neurons@.len() == top[l + 1].neurons
    &&& forall|l: int| 0 <= l < n.layers@.len() ==> layer_wf(#[trigger] n.layers@[l], top[l].neurons as int)
}

/// One step of unfolding `layers_fit`.
proof fn lemma_layers_fit_head(ls: Seq<Layer>, x: Seq<int>)
    requires
        layers_fit(ls, x),
    ensures
        vals_ok(x),
        ls.len() > 0 ==> layer_ok(ls[0]),
        ls.len() > 0 ==> layers_fit(ls.drop_first(), layer_out(ls[0], x)),
{
}

pub(crate) proof fn lemma_layers_wf_push(ls: Seq<Layer>, in_width: int, x: Layer, x_width: int)
    requires
        layers_wf(ls, in_width),
        layer_wf(x, x_width),
        ls.len() == 0 ==> x_width == in_width,
        ls.len() > 0 ==> x_width == ls[ls.len() - 1].neurons@.len(),
    ensures
        layers_wf(ls.push(x), in_width),
    decreases ls.len(),
{
    if ls.len() == 0 {
        assert(ls.push(x)[0] == x);
        assert(ls.push(x).drop_first() =~= Seq::<Layer>::empty());
        assert(layers_wf(Seq::<Layer>::empty(), x.neurons@.len() as int));
        assert(layer_wf(ls.push(x)[0], in_width));
    } else {
        assert(ls.push(x).drop_first() =~= ls.drop_first().push(x));
        lemma_layers_wf_push(ls.drop_first(), ls[0].neurons@.len() as int, x, x_width);
        assert(ls.push(x)[0] == ls[0]);
        assert(layers_wf(ls.push(x).drop_first(), ls[0].neurons@.len() as int));
    }
}

impl Layer {
    pub fn new(neurons: Vec<Neuron>) -> (r: Layer)
        ensures
            r.neurons == neurons,
    {
        Layer { neurons }
    }

    /// A layer of `output_neurons` random neurons, each taking
    /// `input_neurons` inputs.
    pub fn random(rng: &mut EngineRng, input_neurons: usize, output_neurons: usize) -> (r: Layer)
        ensures
            r.neurons@.len() == output_neurons,
            layer_wf(r, input_neurons as int),
            layer_in_unit(r),
    {
        let mut neurons: Vec<Neuron> = Vec::new();
        let mut k: usize = 0;
        while k < output_neurons
            invariant
                0 <= k <= output_neurons,
                neurons@.len() == k,
                forall|i: int| 0 <= i < k
                    ==> (#[trigger] neurons@[i]).weights@.len() == input_neurons,
                forall|i: int| 0 <= i < k ==> neuron_in_unit(#[trigger] neurons@[i]),
            decreases output_neurons - k,
        {
            let n = Neuron::random(rng, input_neurons);
            neurons.push(n);
            k = k + 1;
        }
        Layer { neurons }
    }

    /// The layer's exact output vector on `inputs`.
    pub fn propagate(&self, inputs: Vec<i64>) -> (r: Vec<i64>)
        requires
            layer_ok(*self),
            layer_wf(*self, inputs@.len() as int),
            vals_ok(int_view(inputs@)),
            vals_ok(layer_out(*self, int_view(inputs@))),
        ensures
            int_view(r@) == layer_out(*self, int_view(inputs@)),
    {
        let ghost x = int_view(inputs@);
        let mut out: Vec<i64> = Vec::new();
        let mut k: usize = 0;
        while k < self.neurons.len()
            invariant
                0 <= k <= self.neurons@.len(),
                layer_ok(*self),
                layer_wf(*self, inputs@.len() as int),
                x == int_view(inputs@),
                vals_ok(x),
                vals_ok(layer_out(*self, x)),
                out@.len() == k,
                forall|i: int| 0 <= i < k ==> #[trigger] out@[i] as int == layer_out(*self, x)[i],
            decreases self.neurons@.len() - k,
        {
            proof {
                assert(layer_out(*self, x)[k as int] == neuron_out(self.neurons@[k as int], x));
            }
            let v: i64 = self.neurons[k].propagate(&inputs);
            out.push(v);
            k = k + 1;
        }
        proof {
            assert(int_view(out@) =~= layer_out(*self, x));
        }
        out
    }
}

impl Network {
    pub fn new(layers: Vec<Layer>) -> (r: Network)
        ensures
            r.layers == layers,
    {
        Network { layers }
    }

    /// A network built from a topology and an RNG: for each consecutive
    /// pair of widths, one layer of random neurons, every gene drawn
    /// uniformly from `[-1.0, 1.0]` on the fixed-point grid.
    pub fn random(rng: &mut EngineRng, layers: &Vec<LayerTopology>) -> (r: Network)
        requires
            layers@.len() >= 2,
        ensures
            matches_topology(r, layers@),
            layers_wf(r.layers@, layers@[0].neurons as int),
            network_in_unit(r),
    {
        let mut built: Vec<Layer> = Vec::new();
        let mut l: usize = 1;
        while l < layers.len()
            invariant
                1 <= l <= layers@.len(),
                2 <= layers@.len(),
                built@.len() == l - 1,
                forall|j: int| 0 <= j < built@.len()
                    ==> (#[trigger] built@[j]).neurons@.len() == layers@[j + 1].neurons,
                forall|j: int| 0 <= j < built@.len()
                    ==> layer_wf(#[trigger] built@[j], layers@[j].neurons as int),
                forall|j: int| 0 <= j < built@.len() ==> layer_in_unit(#[trigger] built@[j]),
                layers_wf(built@, layers@[0].neurons as int),
            decreases layers@.len() - l,
        {
            let prev: usize = layers[l - 1].neurons;
            let cur: usize = layers[l].neurons;
            let layer = Layer::random(rng, prev, cur);
            proof {
                lemma_layers_wf_push(
                    built@,
                    layers@[0].neurons as int,
                    layer,
                    prev as int,
                );
            }
            built.push(layer);
            l = l + 1;
        }
        Network { layers: built }
    }

    /// The network's exact output vector: each layer's output, folded
    /// through the stack in order.
    pub fn propagate(&self, inputs: Vec<i64>) -> (r: Vec<i64>)
        requires
            layers_wf(self.layers@, inputs@.len() as int),
            layers_fit(self.layers@, int_view(inputs@)),
        ensures
            int_view(r@) == layers_out(self.layers@, int_view(inputs@)),
    {
        let ghost x0 = int_view(inputs@);
        proof {
            assert(self.layers@.skip(0) =~= self.layers@);
        }
        let mut current = inputs;
        let mut l: usize = 0;
        while l < self.layers.len()
            invariant
                0 <= l <= self.layers@.len(),
                layers_wf(self.layers@.skip(l as int), current@.len() as int),
                layers_fit(self.layers@.skip(l as int), int_view(current@)),
                layers_out(self.layers@, x0)
                    == layers_out(self.layers@.skip(l as int), int_view(current@)),
            decreases self.layers@.len() - l,
        {
            let ghost suffix = self.layers@.skip(l as int);
            let ghost xcur = int_view(current@);
            proof {
                assert(suffix[0] == self.layers@[l as int]);
                assert(suffix.drop_first() =~= self.layers@.skip(l as int + 1));
                lemma_layers_fit_head(suffix, xcur);
                lemma_layers_fit_head(suffix.drop_first(), layer_out(suffix[0], xcur));
            }
            let next = self.layers[l].propagate(current);
            proof {
                assert(int_view(next@) == layer_out(suffix[0], xcur));
                assert(next@.len() == suffix[0].neurons@.len());
            }
            current = next;
            l = l + 1;
        }
        proof {
            assert(self.layers@.skip(self.layers@.len() as int) =~= Seq::<Layer>::empty());
        }
        current
    }
}

} // verus!
