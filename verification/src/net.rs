//! The network: an ordered stack of layers, driven forward and backward.

use vstd::prelude::*;
use crate::layers::{
    layer_accepts, layer_backward_ok, layer_fits, layer_forward_ok, layer_out_width,
    layer_total, layer_wf, lemma_layer_forward_shape, Layer, ParamGradients,
};
use crate::tensor::{same_cells, same_shape, Ops, Tensor};

verus! {

/// An ordered sequence of layers. The forward pass retains every
/// intermediate activation; the backward pass replays the layers in
/// reverse, threading the gradient.
pub struct NeuralNet<T, F, D> {
    pub layers: Vec<Layer<T, F, D>>,
}

/// The row width of the data after the first `n` layers, starting from
/// inputs of row width `w`.
pub open spec fn width_after<T: Copy, F, D>(
    layers: Seq<Layer<T, F, D>>, w: int, n: int,
) -> int
    decreases n,
{
    if n <= 0 {
        w
    } else {
        layer_out_width(layers[n - 1], width_after(layers, w, n - 1))
    }
}

/// Every layer is well-formed.
pub open spec fn layers_wf<T: Copy, F, D>(layers: Seq<Layer<T, F, D>>) -> bool {
    forall|i: int| 0 <= i < layers.len() ==> layer_wf(#[trigger] layers[i])
}

/// Every layer's closures accept every scalar.
pub open spec fn layers_total<T: Copy, F: Fn(T) -> T, D: Fn(T) -> T>(
    layers: Seq<Layer<T, F, D>>,
) -> bool {
    forall|i: int| 0 <= i < layers.len() ==> layer_total(#[trigger] layers[i])
}

/// Each layer accepts the row width the layers before it produce, starting
/// from inputs of row width `w`.
pub open spec fn pipeline_ok<T: Copy, F, D>(layers: Seq<Layer<T, F, D>>, w: int) -> bool {
    forall|i: int| 0 <= i < layers.len()
        ==> layer_accepts(#[trigger] layers[i], width_after(layers, w, i))
}

/// Every layer's output buffer fits in a `usize`, for a batch of `h` rows.
pub open spec fn pipeline_fits<T: Copy, F, D>(
    layers: Seq<Layer<T, F, D>>, h: int,
) -> bool {
    forall|i: int| 0 <= i < layers.len() ==> layer_fits(#[trigger] layers[i], h)
}

/// `ims` is a complete forward trace: element 0 is the original input, and
/// each following element is the corresponding layer's forward output on
/// the element before it.
pub open spec fn trace_ok<
    T: Copy, F: Fn(T) -> T, D: Fn(T) -> T,
    A: Fn(T, T) -> T, S: Fn(T, T) -> T, M: Fn(T, T) -> T,
>(
    ops: Ops<T, A, S, M>, layers: Seq<Layer<T, F, D>>, ims: Seq<Tensor<T>>,
) -> bool {
    &&& ims.len() == layers.len() + 1
    &&& ims[0].wf()
    &&& forall|i: int| 0 <= i < layers.len()
        ==> layer_forward_ok(ops, layers[i], ims[i], #[trigger] ims[i + 1])
}

/// `gs` threads the gradient backward through the whole stack: `gs[i]` is
/// the gradient with respect to `ims[i]`, and each step is the layer's
/// backward relation, with `pgs[i]` that layer's parameter gradients.
pub open spec fn backward_trace_witness<
    T: Copy, F: Fn(T) -> T, D: Fn(T) -> T,
    A: Fn(T, T) -> T, S: Fn(T, T) -> T, M: Fn(T, T) -> T,
>(
    ops: Ops<T, A, S, M>, layers: Seq<Layer<T, F, D>>, ims: Seq<Tensor<T>>,
    gs: Seq<Tensor<T>>, pgs: Seq<Option<ParamGradients<T>>>,
) -> bool {
    &&& gs.len() == layers.len() + 1
    &&& pgs.len() == layers.len()
    &&& forall|i: int| 0 <= i < layers.len()
        ==> layer_backward_ok(ops, layers[i], ims[i], gs[i + 1], #[trigger] gs[i], pgs[i])
}

/// The backward pass relates `grad_in` (the loss gradient at the network's
/// output) to `grad_out` (the gradient at the network's input) through a
/// chain of per-layer backward steps over the forward trace `ims`.
pub open spec fn backward_trace_ok<
    T: Copy, F: Fn(T) -> T, D: Fn(T) -> T,
    A: Fn(T, T) -> T, S: Fn(T, T) -> T, M: Fn(T, T) -> T,
>(
    ops: Ops<T, A, S, M>, layers: Seq<Layer<T, F, D>>, ims: Seq<Tensor<T>>,
    grad_in: Tensor<T>, grad_out: Tensor<T>, pgs: Seq<Option<ParamGradients<T>>>,
) -> bool {
    exists|gs: Seq<Tensor<T>>|
        #[trigger] backward_trace_witness(ops, layers, ims, gs, pgs)
        && gs[layers.len() as int] == grad_in
        && gs[0] == grad_out
}

impl<T: Copy, F: Fn(T) -> T, D: Fn(T) -> T> NeuralNet<T, F, D> {
    pub fn new(layers: Vec<Layer<T, F, D>>) -> (r: NeuralNet<T, F, D>)
        ensures
            r.layers == layers,
    {
        NeuralNet { layers }
    }

    /// The forward pass: runs every layer in order, retaining each
    /// intermediate activation. The returned sequence has one element per
    /// layer plus one: element 0 is the input, element `i` the output of
    /// layer `i`, and the first component copies the last element.
    pub fn forward<A: Fn(T, T) -> T, S: Fn(T, T) -> T, M: Fn(T, T) -> T>(
        &self, inputs: Tensor<T>, ops: &Ops<T, A, S, M>,
    ) -> (r: (Tensor<T>, Vec<Tensor<T>>))
        requires
            inputs.wf(),
            layers_wf(self.layers@),
            layers_total(self.layers@),
            pipeline_ok(self.layers@, inputs.width as int),
            pipeline_fits(self.layers@, inputs.height as int),
            ops.total(),
        ensures
            trace_ok(*ops, self.layers@, r.1@),
            r.1@.len() == self.layers@.len() + 1,
            r.1@[0] == inputs,
            same_cells(r.0, r.1@[self.layers@.len() as int]),
            r.0.wf(),
    {
        let ghost inputs0 = inputs;
        let mut intermediate_results: Vec<Tensor<T>> = Vec::new();
        intermediate_results.push(inputs);
        let n: usize = self.layers.len();
        let mut i: usize = 0;
        while i < n
            invariant
                i <= n,
                n == self.layers@.len(),
                inputs0.wf(),
                layers_wf(self.layers@),
                layers_total(self.layers@),
                pipeline_ok(self.layers@, inputs0.width as int),
                pipeline_fits(self.layers@, inputs0.height as int),
                ops.total(),
                intermediate_results@.len() == i + 1,
                intermediate_results@[0] == inputs0,
                forall|k: int| 0 <= k < i
                    ==> layer_forward_ok(*ops, self.layers@[k],
                        intermediate_results@[k],
                        #[trigger] intermediate_results@[k + 1]),
                forall|k: int| 0 <= k <= i
                    ==> (#[trigger] intermediate_results@[k]).wf()
                        && intermediate_results@[k].height == inputs0.height
                        && intermediate_results@[k].width
                            == width_after(self.layers@, inputs0.width as int, k),
            decreases n - i,
        {
            let last = &intermediate_results[i];
            let layer = &self.layers[i];
            let intermediate = layer.forward(last, ops);
            intermediate_results.push(intermediate);
            i += 1;
        }
        let last = &intermediate_results[n];
        let result = last.duplicate();
        (result, intermediate_results)
    }

    /// The backward pass: replays the layers in reverse over the forward
    /// trace, threading the loss gradient back to the network's input.
    /// Also hands out each layer's parameter gradients, in layer order,
    /// for an external optimizer step.
    pub fn backward<A: Fn(T, T) -> T, S: Fn(T, T) -> T, M: Fn(T, T) -> T>(
        &self, gradient: Tensor<T>, intermediate_results: &Vec<Tensor<T>>,
        ops: &Ops<T, A, S, M>,
    ) -> (r: (Tensor<T>, Vec<Option<ParamGradients<T>>>))
        requires
            trace_ok(*ops, self.layers@, intermediate_results@),
            layers_wf(self.layers@),
            layers_total(self.layers@),
            ops.total(),
            gradient.wf(),
            same_shape(gradient, intermediate_results@[self.layers@.len() as int]),
        ensures
            backward_trace_ok(*ops, self.layers@, intermediate_results@,
                gradient, r.0, r.1@),
            r.1@.len() == self.layers@.len(),
            r.0.wf(),
            same_shape(r.0, intermediate_results@[0]),
    {
        let ghost g0 = gradient;
        let n: usize = self.layers.len();
        let mut grad = gradient;
        let ghost mut gs: Seq<Tensor<T>> = seq![g0];
        let mut pgs: Vec<Option<ParamGradients<T>>> = Vec::new();
        let mut i: usize = n;
        while i > 0
            invariant
                i <= n,
                n == self.layers@.len(),
                trace_ok(*ops, self.layers@, intermediate_results@),
                layers_wf(self.layers@),
                layers_total(self.layers@),
                ops.total(),
                gs.len() == n - i + 1,
                gs[gs.len() as int - 1] == g0,
                gs[0] == grad,
                grad.wf(),
                same_shape(grad, intermediate_results@[i as int]),
                pgs@.len() == n - i,
                forall|m: int| 0 <= m < n - i
                    ==> layer_backward_ok(*ops, self.layers@[m + i],
                        intermediate_results@[m + i], gs[m + 1],
                        #[trigger] gs[m], pgs@[m]),
            decreases i,
        {
            let idx: usize = i - 1;
            let layer = &self.layers[idx];
            let orig = &intermediate_results[idx];
            proof {
                lemma_layer_forward_shape(*ops, self.layers@[idx as int],
                    intermediate_results@[idx as int],
                    intermediate_results@[idx as int + 1]);
            }
            let (down, pg) = layer.backward(orig, &grad, ops);
            let ghost old_gs = gs;
            let ghost old_pgs = pgs@;
            pgs.insert(0, pg);
            proof {
                gs = seq![down].add(gs);
                assert forall|m: int| 0 <= m < n - idx
                    implies layer_backward_ok(*ops, self.layers@[m + idx],
                        intermediate_results@[m + idx], gs[m + 1],
                        #[trigger] gs[m], pgs@[m]) by {
                    if m == 0 {
                        assert(layer_backward_ok(*ops, self.layers@[idx as int],
                            intermediate_results@[idx as int], grad, down, pg));
                        assert(gs[0] == down);
                        assert(gs[1] == old_gs[0]);
                        assert(old_gs[0] == grad);
                        assert(pgs@[0] == pg);
                    } else {
                        assert(gs[m] == old_gs[m - 1]);
                        assert(gs[m + 1] == old_gs[m]);
                        assert(pgs@[m] == old_pgs[m - 1]);
                    }
                }
            }
            grad = down;
            i = idx;
        }
        proof {
            assert(backward_trace_witness(*ops, self.layers@,
                intermediate_results@, gs, pgs@));
        }
        (grad, pgs)
    }
}

} // verus!
