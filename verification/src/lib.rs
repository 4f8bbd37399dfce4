//! A minimal, modular feed-forward neural-network training core.
//!
//! The crate provides composable computation units (an affine layer, a
//! rectifier, two loss functions), a parameter-visitor protocol through
//! which optimizers and initializers mutate trainable state without knowing
//! which component owns it, plain and momentum-based gradient descent, a
//! Xavier initializer, and a fixed network composition that is itself a
//! layer.
//!
//! Tensors are dense, runtime-dimensioned and store one sample per column.
//! The element type is abstract: every arithmetic step goes through the
//! [`Scalar`] interface, whose operations carry uninterpreted
//! specification twins, and the embedding program instantiates it with its
//! number type. The verified contracts pin down, element by element, which
//! operations each component applies to which operands — the affine
//! formula of the linear layer, the rectifier's gating, both loss and
//! gradient formulas, the optimizers' update rules, and the accumulation
//! (never overwriting) of gradients — together with the shapes of every
//! result, when each call succeeds and which error it reports otherwise,
//! the cache discipline between forward and backward passes, which
//! (parameter, gradient) pairs every walk hands the visitor and in which
//! order, and the positional pairing of momentum buffers with parameters
//! across passes.
//! What the scalar operations themselves compute (ordinary real
//! arithmetic) is the one thing left to the embedding program.

pub mod activation_layers;
pub mod error;
pub mod initializer;
pub mod layer;
pub mod loss_function;
pub mod network;
pub mod optimizer;
pub mod param_layers;
pub mod scalar;
pub mod tensor;
pub mod visitor;

pub use activation_layers::ReLU;
pub use error::NnError;
pub use initializer::XavierInitializer;
pub use layer::Layer;
pub use loss_function::{CrossEntropy, LossFunction, MSE};
pub use network::Network;
pub use optimizer::{SGDMomentum, SGD};
pub use param_layers::LinearLayer;
pub use scalar::{RandomSource, Scalar};
pub use tensor::Matrix;
pub use visitor::{ParamVisitor, Parameterized};
