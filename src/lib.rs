//! The orchestration core of a feed-forward network benchmark: the shapes that
//! the model and its loss accept, the training loop's step sequence for the
//! inference-only and the differentiable variant, and the bookkeeping of which
//! parameters the optimizer holds state for.

pub mod optim;
pub mod shape;
pub mod train;
