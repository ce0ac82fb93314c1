//! Training-loop core of a neural-network optimizer: a solver that drives
//! minibatch accumulation, loss smoothing and iteration bookkeeping, and a
//! momentum update rule. Scalars are signed fixed-point numbers.
pub mod config;
pub mod fixed;
pub mod momentum;
pub mod solver;
