use neural_net::{Activation, Layer, Linear, MeanSquared, NeuralNet, Ops, Tensor};

type ScalarFn = fn(f32) -> f32;

fn f32_ops() -> Ops<
    f32,
    impl Fn(f32, f32) -> f32,
    impl Fn(f32, f32) -> f32,
    impl Fn(f32, f32) -> f32,
> {
    Ops {
        add_fn: |a: f32, b: f32| a + b,
        sub_fn: |a: f32, b: f32| a - b,
        mul_fn: |a: f32, b: f32| a * b,
        zero: 0.0,
    }
}

fn tanh_activation() -> Activation<ScalarFn, ScalarFn> {
    Activation::new(
        |x: f32| x.tanh(),
        |x: f32| 1.0 - x.tanh() * x.tanh(),
    )
}

fn identity_linear(size: usize) -> Linear<f32> {
    let weights = Tensor::fill(size, size, |row, col| {
        if row == col { 1.0 } else { 0.0 }
    });
    let bias = Tensor::zero(size, 1, 0.0f32);
    Linear::with_params(weights, bias)
}

#[test]
fn loss_is_zero_when_prediction_matches_target() {
    let prediction = Tensor::fill(3, 2, |row, col| (row * 3 + col) as f32 * 0.5);
    let actual = prediction.duplicate();
    let ops = f32_ops();
    let loss = MeanSquared.loss(&prediction, &actual, &ops);
    assert_eq!(loss, 0.0);
    let gradient = MeanSquared.gradient(&prediction, &actual, 2.0, &ops);
    assert_eq!(gradient, Tensor::zero(3, 2, 0.0f32));
}

#[test]
fn loss_sums_squared_differences() {
    let prediction = Tensor::column(vec![1.0f32]);
    let actual = Tensor::column(vec![0.0f32]);
    let ops = f32_ops();
    let loss = MeanSquared.loss(&prediction, &actual, &ops);
    assert_eq!(loss, 1.0);
    let gradient = MeanSquared.gradient(&prediction, &actual, 2.0, &ops);
    assert_eq!(gradient, Tensor::column(vec![2.0f32]));
}

#[test]
fn linear_layer_computes_inputs_times_weights_plus_bias() {
    let weights = Tensor::fill(2, 2, |row, col| [[1.0f32, 2.0], [3.0, 4.0]][row][col]);
    let bias = Tensor::fill(2, 1, |_row, col| [10.0f32, 20.0][col]);
    let layer = Linear::with_params(weights, bias);
    let inputs = Tensor::fill(2, 1, |_row, col| [1.0f32, 1.0][col]);
    let ops = f32_ops();
    let out = layer.forward(&inputs, &ops);
    assert_eq!(out.dimensions(), (2, 1));
    assert_eq!(out.get(0, 0), Some(1.0 + 3.0 + 10.0));
    assert_eq!(out.get(0, 1), Some(2.0 + 4.0 + 20.0));
}

#[test]
fn linear_backward_exposes_parameter_gradients() {
    let weights = Tensor::zero(2, 2, 0.0f32);
    let bias = Tensor::zero(2, 1, 0.0f32);
    let layer = Linear::with_params(weights, bias);
    let original_inputs = Tensor::fill(2, 2, |row, col| (row * 2 + col) as f32);
    let gradient = Tensor::fill(2, 2, |_row, _col| 1.0f32);
    let ops = f32_ops();
    let (down, grads) = layer.backward(&original_inputs, &gradient, &ops);
    assert_eq!(down.dimensions(), (2, 2));
    assert_eq!(down, Tensor::zero(2, 2, 0.0f32));
    assert_eq!(grads.weight_gradient.dimensions(), (2, 2));
    assert_eq!(grads.weight_gradient.get(0, 0), Some(0.0 + 2.0));
    assert_eq!(grads.weight_gradient.get(0, 1), Some(0.0 + 2.0));
    assert_eq!(grads.weight_gradient.get(1, 0), Some(1.0 + 3.0));
    assert_eq!(grads.weight_gradient.get(1, 1), Some(1.0 + 3.0));
    assert_eq!(grads.bias_gradient.dimensions(), (2, 1));
    assert_eq!(grads.bias_gradient.get(0, 0), Some(2.0));
    assert_eq!(grads.bias_gradient.get(0, 1), Some(2.0));
}

#[test]
fn tanh_backward_at_zero_passes_the_gradient_through() {
    let act = tanh_activation();
    let original_inputs = Tensor::zero(3, 1, 0.0f32);
    let gradient = Tensor::fill(3, 1, |_row, col| (col as f32 + 1.0) * 0.5);
    let ops = f32_ops();
    let down = act.backward(&original_inputs, &gradient, &ops);
    assert_eq!(down, gradient);
}

#[test]
fn tanh_forward_applies_elementwise() {
    let act = tanh_activation();
    let inputs = Tensor::column(vec![0.0f32, 1.0]);
    let out = act.forward(&inputs);
    assert_eq!(out.get(0, 0), Some(0.0));
    assert_eq!(out.get(1, 0), Some(1.0f32.tanh()));
}

#[test]
fn identity_network_round_trips_inputs_and_gradients() {
    let layers: Vec<Layer<f32, ScalarFn, ScalarFn>> =
        vec![Layer::Linear(identity_linear(2))];
    let net = NeuralNet::new(layers);
    let input = Tensor::fill(2, 1, |_row, col| [3.0f32, -1.5][col]);
    let ops = f32_ops();
    let (output, intermediates) = net.forward(input.duplicate(), &ops);
    assert_eq!(intermediates.len(), 2);
    assert_eq!(intermediates[0], input);
    assert_eq!(output, input);

    let gradient = Tensor::fill(2, 1, |_row, col| [0.25f32, 4.0][col]);
    let (input_gradient, param_gradients) =
        net.backward(gradient.duplicate(), &intermediates, &ops);
    assert_eq!(input_gradient, gradient);
    assert_eq!(param_gradients.len(), 1);
    assert!(param_gradients[0].is_some());
}

#[test]
fn forward_retains_one_intermediate_per_layer_plus_the_input() {
    let layers: Vec<Layer<f32, ScalarFn, ScalarFn>> = vec![
        Layer::Linear(identity_linear(2)),
        Layer::Activation(tanh_activation()),
        Layer::Linear(identity_linear(2)),
    ];
    let net = NeuralNet::new(layers);
    let input = Tensor::fill(2, 1, |_row, col| [0.5f32, -0.5][col]);
    let ops = f32_ops();
    let (_output, intermediates) = net.forward(input, &ops);
    assert_eq!(intermediates.len(), 4);
}

#[test]
fn activation_layers_report_no_parameter_gradients() {
    let layers: Vec<Layer<f32, ScalarFn, ScalarFn>> =
        vec![Layer::Activation(tanh_activation())];
    let net = NeuralNet::new(layers);
    let input = Tensor::zero(2, 1, 0.0f32);
    let ops = f32_ops();
    let (_output, intermediates) = net.forward(input, &ops);
    let gradient = Tensor::fill(2, 1, |_row, _col| 1.0f32);
    let (input_gradient, param_gradients) =
        net.backward(gradient.duplicate(), &intermediates, &ops);
    assert_eq!(input_gradient, gradient);
    assert_eq!(param_gradients.len(), 1);
    assert!(param_gradients[0].is_none());
}
