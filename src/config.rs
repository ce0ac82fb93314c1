//! Solver configuration, the training network's construction settings, and
//! the errors the solver reports.
use vstd::prelude::*;

verus! {

/// The kinds of solver there are.
#[derive(Debug, Clone, Copy, PartialEq, Eq)]
pub enum SolverKind {
    /// Stochastic gradient descent.
    SGD,
}

/// The phase a network is built for.
#[derive(Debug, Clone, Copy, PartialEq, Eq)]
pub enum NetworkPhase {
    /// Training: gradients are computed and parameters updated.
    Train,
    /// Evaluation only.
    Test,
}

/// Declarative settings from which the training network is built.
#[derive(Debug, Clone)]
pub struct NetworkConfig {
    /// Name of the network.
    pub name: String,
    /// Phase marker; `None` when the settings leave it open.
    pub phase: Option<NetworkPhase>,
}

/// Settings of one solver run.
#[derive(Debug, Clone)]
pub struct SolverConfig {
    /// Name of the solver.
    pub name: String,
    /// Settings used to build the training network.
    pub train_net: NetworkConfig,
    /// Number of iterations over which the reported loss is averaged; must be
    /// at least 2.
    pub average_loss: usize,
    /// Number of iterations between two evaluation passes; `None` or
    /// `Some(0)` for none.
    pub test_interval: Option<usize>,
    /// Whether an evaluation pass runs before the first update.
    pub test_initialization: bool,
    /// Number of forward/backward passes accumulated per update; at least 1.
    pub minibatch_size: usize,
    /// Momentum coefficient, in fixed point; expected in `[0, 1)`.
    pub momentum: i64,
}

/// What can go wrong while setting up or running a solver.
#[derive(Debug, Clone, Copy, PartialEq, Eq)]
pub enum SolverError {
    /// `average_loss` is below 2.
    InvalidAverageLoss,
    /// `minibatch_size` is 0.
    InvalidMinibatchSize,
    /// A value left the range of the fixed-point type.
    Overflow,
    /// The gradients handed in do not match the parameters' shapes.
    ShapeMismatch,
}

impl Default for SolverConfig {
    fn default() -> (r: SolverConfig)
        ensures
            r.name@.len() == 0,
            r.train_net.name@.len() == 0,
            r.train_net.phase is None,
            r.average_loss == 1,
            r.test_interval is None,
            r.test_initialization,
            r.minibatch_size == 1,
            r.momentum == 0,
    {
        SolverConfig {
            name: String::new(),
            train_net: NetworkConfig { name: String::new(), phase: None },
            average_loss: 1,
            test_interval: None,
            test_initialization: true,
            minibatch_size: 1,
            momentum: 0,
        }
    }
}

impl SolverConfig {
    /// The configured test interval, or 0 when none is set.
    pub fn test_interval(&self) -> (r: usize)
        ensures
            r == match self.test_interval {
                Some(n) => n,
                None => 0,
            },
    {
        match self.test_interval {
            Some(n) => n,
            None => 0,
        }
    }
}

} // verus!
