//! The differentiable layers: an affine transform and an elementwise
//! activation, joined in a tagged union.

use vstd::prelude::*;
use crate::tensor::{
    broadcast_add_ok, col_sums_ok, is_transpose, map_ok, matmul_ok, same_shape, zip_ok,
    Ops, Tensor,
};

verus! {

/// Computes `output = inputs * weights + bias` (bias broadcast across the
/// batch). `weights` has `input_size` rows and `output_size` columns;
/// `bias` is a single row of `output_size` cells.
#[derive(Debug, Clone, PartialEq)]
pub struct Linear<T> {
    pub weights: Tensor<T>,
    pub bias: Tensor<T>,
}

/// A layer which applies `func` elementwise on the way forward and
/// multiplies the upstream gradient by `derivative` elementwise on the
/// way back. Both are pure scalar functions; the layer owns no
/// trainable state.
pub struct Activation<F, D> {
    pub func: F,
    pub derivative: D,
}

/// The gradients of the loss with respect to a layer's own trainable
/// parameters, handed to the caller for an external optimizer step.
pub struct ParamGradients<T> {
    pub weight_gradient: Tensor<T>,
    pub bias_gradient: Tensor<T>,
}

/// A network component: passes inputs forward and propagates gradients
/// backwards.
pub enum Layer<T, F, D> {
    Linear(Linear<T>),
    Activation(Activation<F, D>),
}

impl<T: Copy> Linear<T> {
    /// Shape invariant: the bias is one row wide enough to broadcast over
    /// the product of an input batch with the weights.
    pub open spec fn wf(self) -> bool {
        &&& self.weights.wf()
        &&& self.bias.wf()
        &&& self.bias.height == 1
        &&& self.bias.width == self.weights.width
    }

    /// A linear layer with every weight and bias cell set to `value`
    /// (for a numeric scalar, pass the number zero). Inputs are
    /// `(batch_size, input_size)`; outputs are `(batch_size, output_size)`.
    pub fn new(input_size: usize, output_size: usize, value: T) -> (r: Linear<T>)
        requires
            output_size * input_size <= usize::MAX,
        ensures
            r.wf(),
            r.weights.height == input_size,
            r.weights.width == output_size,
            r.bias.height == 1,
            r.bias.width == output_size,
            forall|i: int| 0 <= i < r.weights.data@.len() ==> r.weights.data@[i] == value,
            forall|i: int| 0 <= i < r.bias.data@.len() ==> r.bias.data@[i] == value,
    {
        Linear {
            weights: Tensor::zero(output_size, input_size, value),
            bias: Tensor::zero(output_size, 1, value),
        }
    }

    /// A linear layer around pre-initialized weights and bias, as an
    /// external initialization strategy supplies them.
    pub fn with_params(weights: Tensor<T>, bias: Tensor<T>) -> (r: Linear<T>)
        requires
            weights.wf(),
            bias.wf(),
            bias.height == 1,
            bias.width == weights.width,
        ensures
            r.wf(),
            r.weights == weights,
            r.bias == bias,
    {
        Linear { weights, bias }
    }
}

/// `product` is the matrix product of the inputs with the weights, and
/// `out` adds the bias, broadcast across the batch.
pub open spec fn linear_forward_witness<
    T: Copy, A: Fn(T, T) -> T, S: Fn(T, T) -> T, M: Fn(T, T) -> T,
>(
    ops: Ops<T, A, S, M>, layer: Linear<T>, inputs: Tensor<T>,
    product: Tensor<T>, out: Tensor<T>,
) -> bool {
    &&& matmul_ok(ops, inputs, layer.weights, product)
    &&& broadcast_add_ok(ops.add_fn, product, layer.bias, out)
}

/// `out = inputs * weights + bias` under the supplied arithmetic.
pub open spec fn linear_forward_ok<
    T: Copy, A: Fn(T, T) -> T, S: Fn(T, T) -> T, M: Fn(T, T) -> T,
>(
    ops: Ops<T, A, S, M>, layer: Linear<T>, inputs: Tensor<T>, out: Tensor<T>,
) -> bool {
    exists|product: Tensor<T>| linear_forward_witness(ops, layer, inputs, product, out)
}

/// `down` is the gradient propagated to the previous layer
/// (`up * weights.transposed()`), and `pg` holds the parameter gradients:
/// `weight_gradient = orig.transposed() * up` and `bias_gradient` the
/// columnwise sums of `up` across the batch.
pub open spec fn linear_backward_ok<
    T: Copy, A: Fn(T, T) -> T, S: Fn(T, T) -> T, M: Fn(T, T) -> T,
>(
    ops: Ops<T, A, S, M>, layer: Linear<T>, orig: Tensor<T>, up: Tensor<T>,
    down: Tensor<T>, pg: ParamGradients<T>,
) -> bool {
    &&& exists|wt: Tensor<T>|
        #[trigger] is_transpose(layer.weights, wt) && matmul_ok(ops, up, wt, down)
    &&& exists|ot: Tensor<T>|
        #[trigger] is_transpose(orig, ot) && matmul_ok(ops, ot, up, pg.weight_gradient)
    &&& col_sums_ok(ops, up, pg.bias_gradient)
}

/// `down` multiplies the elementwise derivative of the original inputs
/// with the upstream gradient, cell for cell (a Hadamard product, not a
/// matrix multiply).
pub open spec fn activation_backward_ok<
    T: Copy, D: Fn(T) -> T, M: Fn(T, T) -> T,
>(
    derivative: D, mul_fn: M, orig: Tensor<T>, up: Tensor<T>, down: Tensor<T>,
) -> bool {
    exists|derivs: Tensor<T>|
        #[trigger] map_ok(derivative, orig, derivs) && zip_ok(mul_fn, derivs, up, down)
}

impl<T: Copy> Linear<T> {
    /// The forward pass: `inputs * weights`, then the bias broadcast-added
    /// across the batch.
    pub fn forward<A: Fn(T, T) -> T, S: Fn(T, T) -> T, M: Fn(T, T) -> T>(
        &self, inputs: &Tensor<T>, ops: &Ops<T, A, S, M>,
    ) -> (r: Tensor<T>)
        requires
            self.wf(),
            inputs.wf(),
            inputs.width == self.weights.height,
            ops.total(),
            self.weights.width * inputs.height <= usize::MAX,
        ensures
            linear_forward_ok(*ops, *self, *inputs, r),
            r.wf(),
            r.height == inputs.height,
            r.width == self.weights.width,
    {
        let product = inputs.matmul(&self.weights, ops);
        let out = product.row_broadcast_add(&self.bias, ops);
        proof {
            assert(linear_forward_witness(*ops, *self, *inputs, product, out));
        }
        out
    }

    /// The backward pass: propagates `gradient * weights.transposed()` to
    /// the previous layer, and computes the gradients with respect to this
    /// layer's own weights and bias for an external optimizer.
    pub fn backward<A: Fn(T, T) -> T, S: Fn(T, T) -> T, M: Fn(T, T) -> T>(
        &self, original_inputs: &Tensor<T>, gradient: &Tensor<T>, ops: &Ops<T, A, S, M>,
    ) -> (r: (Tensor<T>, ParamGradients<T>))
        requires
            self.wf(),
            original_inputs.wf(),
            gradient.wf(),
            ops.total(),
            gradient.width == self.weights.width,
            gradient.height == original_inputs.height,
            original_inputs.width == self.weights.height,
        ensures
            linear_backward_ok(*ops, *self, *original_inputs, *gradient, r.0, r.1),
            r.0.wf(),
            r.0.height == original_inputs.height,
            r.0.width == original_inputs.width,
            r.1.weight_gradient.wf(),
            same_shape(r.1.weight_gradient, self.weights),
            r.1.bias_gradient.wf(),
            same_shape(r.1.bias_gradient, self.bias),
    {
        let wt = self.weights.transposed();
        let input_gradient = gradient.matmul(&wt, ops);
        let ot = original_inputs.transposed();
        let weight_gradient = ot.matmul(gradient, ops);
        let bias_gradient = gradient.column_sums(ops);
        (input_gradient, ParamGradients { weight_gradient, bias_gradient })
    }
}

impl<F, D> Activation<F, D> {
    /// An activation layer from an elementwise function and its
    /// elementwise derivative.
    pub fn new(func: F, derivative: D) -> (r: Activation<F, D>)
        ensures
            r.func == func,
            r.derivative == derivative,
    {
        Activation { func, derivative }
    }

    /// The forward pass: `func` applied elementwise.
    pub fn forward<T: Copy>(&self, inputs: &Tensor<T>) -> (r: Tensor<T>)
        where F: Fn(T) -> T, D: Fn(T) -> T,
        requires
            inputs.wf(),
            forall|x: T| #[trigger] call_requires(self.func, (x,)),
        ensures
            map_ok(self.func, *inputs, r),
    {
        let mut data: Vec<T> = Vec::new();
        let mut i: usize = 0;
        let n: usize = inputs.data.len();
        while i < n
            invariant
                i <= n,
                n == inputs.data@.len(),
                data@.len() == i,
                forall|x: T| #[trigger] call_requires(self.func, (x,)),
                forall|k: int| 0 <= k < i
                    ==> call_ensures(self.func, (inputs.data@[k],), #[trigger] data@[k]),
            decreases n - i,
        {
            let v = (self.func)(inputs.data[i]);
            data.push(v);
            i += 1;
        }
        Tensor { data, width: inputs.width, height: inputs.height }
    }

    /// The backward pass: the elementwise derivative at the original
    /// inputs, multiplied cell for cell with the upstream gradient.
    pub fn backward<T: Copy, A: Fn(T, T) -> T, S: Fn(T, T) -> T, M: Fn(T, T) -> T>(
        &self, original_inputs: &Tensor<T>, gradient: &Tensor<T>, ops: &Ops<T, A, S, M>,
    ) -> (r: Tensor<T>)
        where F: Fn(T) -> T, D: Fn(T) -> T,
        requires
            original_inputs.wf(),
            gradient.wf(),
            same_shape(*original_inputs, *gradient),
            ops.total(),
            forall|x: T| #[trigger] call_requires(self.derivative, (x,)),
        ensures
            activation_backward_ok(self.derivative, ops.mul_fn,
                *original_inputs, *gradient, r),
            r.wf(),
            same_shape(r, *original_inputs),
    {
        let mut ddata: Vec<T> = Vec::new();
        let mut i: usize = 0;
        let n: usize = original_inputs.data.len();
        while i < n
            invariant
                i <= n,
                n == original_inputs.data@.len(),
                ddata@.len() == i,
                forall|x: T| #[trigger] call_requires(self.derivative, (x,)),
                forall|k: int| 0 <= k < i
                    ==> call_ensures(self.derivative, (original_inputs.data@[k],),
                        #[trigger] ddata@[k]),
            decreases n - i,
        {
            let v = (self.derivative)(original_inputs.data[i]);
            ddata.push(v);
            i += 1;
        }
        let derivs = Tensor {
            data: ddata,
            width: original_inputs.width,
            height: original_inputs.height,
        };
        let mut data: Vec<T> = Vec::new();
        let mut i: usize = 0;
        while i < n
            invariant
                i <= n,
                n == derivs.data@.len(),
                n == gradient.data@.len(),
                data@.len() == i,
                ops.total(),
                forall|k: int| 0 <= k < i
                    ==> call_ensures(ops.mul_fn, (derivs.data@[k], gradient.data@[k]),
                        #[trigger] data@[k]),
            decreases n - i,
        {
            let v = (ops.mul_fn)(derivs.data[i], gradient.data[i]);
            data.push(v);
            i += 1;
        }
        let down = Tensor { data, width: gradient.width, height: gradient.height };
        proof {
            assert(map_ok(self.derivative, *original_inputs, derivs));
            assert(zip_ok(ops.mul_fn, derivs, *gradient, down));
        }
        down
    }
}

/// The layer's own shape invariant.
pub open spec fn layer_wf<T: Copy, F, D>(layer: Layer<T, F, D>) -> bool {
    match layer {
        Layer::Linear(l) => l.wf(),
        Layer::Activation(_) => true,
    }
}

/// The layer's closures accept every scalar.
pub open spec fn layer_total<T: Copy, F: Fn(T) -> T, D: Fn(T) -> T>(
    layer: Layer<T, F, D>,
) -> bool {
    match layer {
        Layer::Linear(_) => true,
        Layer::Activation(a) => {
            &&& forall|x: T| #[trigger] call_requires(a.func, (x,))
            &&& forall|x: T| #[trigger] call_requires(a.derivative, (x,))
        },
    }
}

/// Whether the layer accepts inputs of row width `w`.
pub open spec fn layer_accepts<T: Copy, F, D>(layer: Layer<T, F, D>, w: int) -> bool {
    match layer {
        Layer::Linear(l) => w == l.weights.height,
        Layer::Activation(_) => true,
    }
}

/// The row width of the layer's outputs, given inputs of row width `w`.
pub open spec fn layer_out_width<T: Copy, F, D>(layer: Layer<T, F, D>, w: int) -> int {
    match layer {
        Layer::Linear(l) => l.weights.width as int,
        Layer::Activation(_) => w,
    }
}

/// The layer's output buffer fits in a `usize`, for a batch of `h` rows.
pub open spec fn layer_fits<T: Copy, F, D>(layer: Layer<T, F, D>, h: int) -> bool {
    match layer {
        Layer::Linear(l) => l.weights.width * h <= usize::MAX,
        Layer::Activation(_) => true,
    }
}

/// What the layer's forward pass computes.
pub open spec fn layer_forward_ok<
    T: Copy, F: Fn(T) -> T, D: Fn(T) -> T,
    A: Fn(T, T) -> T, S: Fn(T, T) -> T, M: Fn(T, T) -> T,
>(
    ops: Ops<T, A, S, M>, layer: Layer<T, F, D>, inp: Tensor<T>, out: Tensor<T>,
) -> bool {
    match layer {
        Layer::Linear(l) => linear_forward_ok(ops, l, inp, out),
        Layer::Activation(a) => map_ok(a.func, inp, out),
    }
}

/// What the layer's backward pass computes: the gradient handed to the
/// previous layer, and the layer's own parameter gradients where it has
/// trainable state.
pub open spec fn layer_backward_ok<
    T: Copy, F: Fn(T) -> T, D: Fn(T) -> T,
    A: Fn(T, T) -> T, S: Fn(T, T) -> T, M: Fn(T, T) -> T,
>(
    ops: Ops<T, A, S, M>, layer: Layer<T, F, D>, orig: Tensor<T>, up: Tensor<T>,
    down: Tensor<T>, pg: Option<ParamGradients<T>>,
) -> bool {
    match layer {
        Layer::Linear(l) => match pg {
            Option::Some(g) => linear_backward_ok(ops, l, orig, up, down, g),
            Option::None => false,
        },
        Layer::Activation(a) => match pg {
            Option::Some(_) => false,
            Option::None => activation_backward_ok(a.derivative, ops.mul_fn,
                orig, up, down),
        },
    }
}

/// What a layer's forward relation says about shapes: the output keeps the
/// batch height, takes the layer's output width, and is well-formed.
pub proof fn lemma_layer_forward_shape<
    T: Copy, F: Fn(T) -> T, D: Fn(T) -> T,
    A: Fn(T, T) -> T, S: Fn(T, T) -> T, M: Fn(T, T) -> T,
>(
    ops: Ops<T, A, S, M>, layer: Layer<T, F, D>, inp: Tensor<T>, out: Tensor<T>,
)
    requires
        layer_forward_ok(ops, layer, inp, out),
    ensures
        inp.wf(),
        out.wf(),
        out.height == inp.height,
        out.width == layer_out_width(layer, inp.width as int),
        layer_accepts(layer, inp.width as int),
        layer_wf(layer),
{
    match layer {
        Layer::Linear(l) => {
            let product = choose|p: Tensor<T>|
                linear_forward_witness(ops, l, inp, p, out);
        },
        Layer::Activation(_) => {},
    }
}

impl<T: Copy, F: Fn(T) -> T, D: Fn(T) -> T> Layer<T, F, D> {
    /// Produce the outputs corresponding to these inputs.
    pub fn forward<A: Fn(T, T) -> T, S: Fn(T, T) -> T, M: Fn(T, T) -> T>(
        &self, inputs: &Tensor<T>, ops: &Ops<T, A, S, M>,
    ) -> (r: Tensor<T>)
        requires
            inputs.wf(),
            layer_wf(*self),
            layer_total(*self),
            layer_accepts(*self, inputs.width as int),
            layer_fits(*self, inputs.height as int),
            ops.total(),
        ensures
            layer_forward_ok(*ops, *self, *inputs, r),
            r.wf(),
            r.height == inputs.height,
            r.width == layer_out_width(*self, inputs.width as int),
    {
        match self {
            Layer::Linear(l) => l.forward(inputs, ops),
            Layer::Activation(a) => a.forward(inputs),
        }
    }

    /// Back-propagate the gradient through this layer, given the same
    /// inputs that the forward pass saw.
    pub fn backward<A: Fn(T, T) -> T, S: Fn(T, T) -> T, M: Fn(T, T) -> T>(
        &self, original_inputs: &Tensor<T>, gradient: &Tensor<T>, ops: &Ops<T, A, S, M>,
    ) -> (r: (Tensor<T>, Option<ParamGradients<T>>))
        requires
            original_inputs.wf(),
            gradient.wf(),
            layer_wf(*self),
            layer_total(*self),
            layer_accepts(*self, original_inputs.width as int),
            gradient.height == original_inputs.height,
            gradient.width == layer_out_width(*self, original_inputs.width as int),
            ops.total(),
        ensures
            layer_backward_ok(*ops, *self, *original_inputs, *gradient, r.0, r.1),
            r.0.wf(),
            same_shape(r.0, *original_inputs),
    {
        match self {
            Layer::Linear(l) => {
                let (down, pg) = l.backward(original_inputs, gradient, ops);
                (down, Some(pg))
            },
            Layer::Activation(a) => {
                let down = a.backward(original_inputs, gradient, ops);
                (down, None)
            },
        }
    }
}

} // verus!
