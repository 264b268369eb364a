//! A minimal feed-forward neural-network training core: a dense row-major
//! 2D container (`Tensor`), differentiable layers (`Linear`, `Activation`),
//! a loss function (`MeanSquared`), and a network (`NeuralNet`) that drives a
//! forward pass and threads gradients back through the layer stack.
//!
//! The container is generic over its scalar type; the caller supplies the
//! scalar arithmetic as closures (an [`Ops`] bundle), and every contract
//! states how each result cell was produced from those closures.

pub mod layers;
pub mod loss;
pub mod net;
pub mod tensor;

pub use crate::layers::{Activation, Layer, Linear, ParamGradients};
pub use crate::loss::MeanSquared;
pub use crate::net::NeuralNet;
pub use crate::tensor::{Ops, Tensor};
