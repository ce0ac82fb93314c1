//! The solver: iteration bookkeeping, minibatch accumulation and loss
//! smoothing around a pluggable update rule.
//!
//! The network itself lives outside the library. The solver is therefore a
//! state machine: `next_action` says what the caller must do next (zero the
//! gradients, run an evaluation pass, run a forward/backward pass, apply the
//! update), and the caller reports each result back through the matching
//! method.
use vstd::prelude::*;
use vstd::arithmetic::div_mod::{lemma_div_is_ordered, lemma_div_multiples_vanish};
use crate::config::{NetworkPhase, SolverConfig, SolverError, SolverKind};
use crate::fixed::{floor_div, zeros};

verus! {

/// Number of iterations that `solve` runs.
pub const SOLVE_ITERATIONS: usize = 100;

/// Whether two gradient tables have the same number of buffers, each of the
/// same length.
pub open spec fn same_shapes(a: Seq<Vec<i64>>, b: Seq<Vec<i64>>) -> bool {
    &&& a.len() == b.len()
    &&& forall|p: int| 0 <= p < a.len() ==> (#[trigger] a[p])@.len() == b[p]@.len()
}

/// Whether every element of every buffer is zero.
pub open spec fn all_zero(a: Seq<Vec<i64>>) -> bool {
    forall|p: int, i: int| 0 <= p < a.len() && 0 <= i < a[p]@.len() ==> (#[trigger] a[p]@[i]) == 0
}

/// An update rule: it turns the accumulated gradients of every learnable
/// parameter into the steps to apply, keeping whatever per-parameter state
/// its algorithm needs.
pub trait ISolver: Sized {
    /// Whether `s` is the rule's state right after being sized to parameters
    /// of the lengths `shapes`.
    spec fn sized_for(s: Self, shapes: Seq<usize>) -> bool;

    /// Whether one application of the rule, with outcome `ok`, took its state
    /// from `pre` to `post` and the gradient table from `diffs` to `next`.
    spec fn applied(
        pre: Self,
        post: Self,
        config: SolverConfig,
        global_lr: i64,
        blob_lrs: Seq<i64>,
        diffs: Seq<Vec<i64>>,
        next: Seq<Vec<i64>>,
        ok: bool,
    ) -> bool;

    /// Allocates the per-parameter state for parameters of the given lengths.
    fn init(&mut self, shapes: &Vec<usize>)
        ensures
            Self::sized_for(*final(self), shapes@),
    ;

    /// Overwrites each parameter's gradient in `diffs` with the step to apply,
    /// using the learning rate `global_lr * blob_lrs[p]` for parameter `p`.
    fn apply_update(
        &mut self,
        config: &SolverConfig,
        diffs: &mut Vec<Vec<i64>>,
        global_lr: i64,
        blob_lrs: &Vec<i64>,
    ) -> (r: Result<(), SolverError>)
        ensures
            same_shapes(final(diffs)@, old(diffs)@),
            Self::applied(*old(self), *final(self), *config, global_lr, blob_lrs@, old(diffs)@, final(diffs)@, r is Ok),
    ;
}

/// The length of each buffer of a gradient table.
pub open spec fn shapes_of(diffs: Seq<Vec<i64>>) -> Seq<usize> {
    Seq::new(diffs.len(), |p: int| diffs[p]@.len() as usize)
}

/// What the caller of a solver has to do next.
#[derive(Debug, Clone, Copy, PartialEq, Eq)]
pub enum Action {
    /// Zero every parameter gradient and hand the table to `clear_diffs`.
    ClearDiffs,
    /// Run an evaluation pass and report through `test_done`.
    Test,
    /// Run one forward/backward pass and report its loss through `pass_done`.
    ForwardBackward,
    /// Hand the gradients to `apply_update`.
    ApplyUpdate,
    /// Nothing: no step is in progress.
    Done,
}

/// Sum of a sequence of losses.
pub open spec fn sum_of(s: Seq<i64>) -> int
    decreases s.len(),
{
    if s.len() == 0 {
        0
    } else {
        sum_of(s.drop_last()) + s.last() as int
    }
}

/// Mean of a window of losses, rounded down; 0 for an empty window.
pub open spec fn mean_of(s: Seq<i64>) -> int {
    if s.len() == 0 {
        0
    } else {
        sum_of(s) / s.len() as int
    }
}

/// The smoothing window after recording `loss`: appended while fewer than
/// `capacity` samples are held, written over slot `slot` afterwards.
pub open spec fn record_loss(window: Seq<i64>, capacity: nat, slot: int, loss: i64) -> Seq<i64> {
    if window.len() < capacity {
        window.push(loss)
    } else {
        window.update(slot, loss)
    }
}

/// Whether an evaluation pass is due at iteration `iter`.
pub open spec fn test_due(config: SolverConfig, iter: nat) -> bool {
    match config.test_interval {
        Some(n) => n > 0 && iter % (n as nat) == 0 && (iter > 0 || config.test_initialization),
        None => false,
    }
}

/// The training network's phase once the solver's default is merged in: a
/// phase the settings already give is kept, else it is `Train`.
pub open spec fn merged_phase(phase: Option<NetworkPhase>) -> Option<NetworkPhase> {
    match phase {
        Some(p) => Some(p),
        None => Some(NetworkPhase::Train),
    }
}

proof fn lemma_sum_update(s: Seq<i64>, k: int, x: i64)
    requires
        0 <= k < s.len(),
    ensures
        sum_of(s.update(k, x)) == sum_of(s) - s[k] + x,
    decreases s.len(),
{
    let t = s.update(k, x);
    if k == s.len() - 1 {
        assert(t.drop_last() =~= s.drop_last());
    } else {
        lemma_sum_update(s.drop_last(), k, x);
        assert(t.drop_last() =~= s.drop_last().update(k, x));
    }
}

proof fn lemma_sum_bounds(s: Seq<i64>)
    ensures
        s.len() * (i64::MIN as int) <= sum_of(s) <= s.len() * (i64::MAX as int),
    decreases s.len(),
{
    if s.len() > 0 {
        lemma_sum_bounds(s.drop_last());
        assert(s.len() * (i64::MIN as int) == (s.len() - 1) * (i64::MIN as int) + i64::MIN) by (nonlinear_arith);
        assert(s.len() * (i64::MAX as int) == (s.len() - 1) * (i64::MAX as int) + i64::MAX) by (nonlinear_arith);
    }
}

/// Floor of `sum / n` for a sum of `n` values of the fixed-point type.
fn mean_fits(sum: i128, n: usize) -> (r: i64)
    requires
        n > 0,
        n * (i64::MIN as int) <= sum <= n * (i64::MAX as int),
    ensures
        r == sum as int / n as int,
{
    proof {
        lemma_div_is_ordered(sum as int, n * (i64::MAX as int), n as int);
        lemma_div_multiples_vanish(i64::MAX as int, n as int);
        lemma_div_is_ordered(n * (i64::MIN as int), sum as int, n as int);
        lemma_div_multiples_vanish(i64::MIN as int, n as int);
        assert(n * (i64::MAX as int) == (i64::MAX as int) * n) by (nonlinear_arith);
        assert(n * (i64::MIN as int) == (i64::MIN as int) * n) by (nonlinear_arith);
    }
    floor_div(sum, n as i128) as i64
}

/// A solver that trains a network with the update rule `S`.
#[derive(Debug)]
pub struct Solver<S> {
    kind: SolverKind,
    /// The update rule.
    pub worker: S,
    param: SolverConfig,
    /// Number of completed parameter updates.
    iter: usize,
    /// Step of the learning-rate schedule.
    current_step: usize,
    /// First iteration of the step in progress.
    start_iter: usize,
    /// Iteration at which the step in progress ends.
    stop_iter: usize,
    next: Action,
    /// Forward/backward passes done in this iteration, and their summed loss.
    passes: usize,
    pass_sum: i128,
    /// Loss of the last completed minibatch.
    loss: i64,
    /// The smoothing window, its sum, and its mean.
    losses: Vec<i64>,
    loss_sum: i128,
    smoothed_loss: i64,
    early_exit: bool,
    failed: bool,
    worker_ready: bool,
}

impl<S> Solver<S> {
    /// Settings of this solver, with the training phase merged in.
    pub closed spec fn config(&self) -> SolverConfig {
        self.param
    }

    /// The kind of this solver.
    pub closed spec fn solver_kind(&self) -> SolverKind {
        self.kind
    }

    /// Step of the learning-rate schedule.
    pub closed spec fn schedule_step(&self) -> nat {
        self.current_step as nat
    }

    /// Completed parameter updates.
    pub closed spec fn iteration(&self) -> nat {
        self.iter as nat
    }

    /// First iteration of the current (or last) step.
    pub closed spec fn step_start(&self) -> nat {
        self.start_iter as nat
    }

    /// Iteration at which the current (or last) step ends.
    pub closed spec fn step_stop(&self) -> nat {
        self.stop_iter as nat
    }

    /// What the caller has to do next.
    pub closed spec fn action(&self) -> Action {
        self.next
    }

    /// Forward/backward passes already done in this iteration.
    pub closed spec fn pass_count(&self) -> nat {
        self.passes as nat
    }

    /// Summed loss of those passes.
    pub closed spec fn pass_total(&self) -> int {
        self.pass_sum as int
    }

    /// Loss of the last completed minibatch.
    pub closed spec fn last_loss(&self) -> int {
        self.loss as int
    }

    /// The losses the smoothed loss is the mean of.
    pub closed spec fn window(&self) -> Seq<i64> {
        self.losses@
    }

    /// The update rule.
    pub closed spec fn rule(&self) -> S {
        self.worker
    }

    /// Whether the update rule has been sized to the network.
    pub closed spec fn rule_ready(&self) -> bool {
        self.worker_ready
    }

    /// Whether an evaluation pass asked to stop.
    pub closed spec fn exited(&self) -> bool {
        self.early_exit
    }

    /// Whether the update rule reported an error.
    pub closed spec fn halted(&self) -> bool {
        self.failed
    }

    /// The solver's invariant.
    pub closed spec fn wf(&self) -> bool {
        &&& self.param.average_loss >= 2
        &&& self.param.minibatch_size >= 1
        &&& self.start_iter <= self.iter <= self.stop_iter
        &&& self.next != Action::Done ==> self.iter < self.stop_iter && !self.early_exit && !self.failed
        &&& self.next == Action::Done && !self.early_exit && !self.failed ==> self.iter == self.stop_iter
        &&& self.next != Action::ForwardBackward ==> self.passes == 0 && self.pass_sum == 0
        &&& self.passes < self.param.minibatch_size
        &&& self.passes * (i64::MIN as int) <= self.pass_sum <= self.passes * (i64::MAX as int)
        &&& self.losses@.len() <= self.param.average_loss
        &&& self.loss_sum == sum_of(self.losses@)
        &&& self.smoothed_loss == mean_of(self.losses@)
    }
}

impl<S> Solver<S> {
    /// What the caller has to do next.
    pub fn next_action(&self) -> (r: Action)
        ensures
            r == self.action(),
    {
        self.next
    }

    /// Number of completed parameter updates.
    pub fn iter(&self) -> (r: usize)
        ensures
            r == self.iteration(),
    {
        self.iter
    }

    /// The kind of this solver.
    pub fn kind(&self) -> (r: SolverKind)
        ensures
            r == self.solver_kind(),
    {
        self.kind
    }

    /// Step of the learning-rate schedule.
    pub fn current_step(&self) -> (r: usize)
        ensures
            r == self.schedule_step(),
    {
        self.current_step
    }

    /// Settings of this solver.
    pub fn param(&self) -> (r: &SolverConfig)
        ensures
            *r == self.config(),
    {
        &self.param
    }

    /// Mean, rounded down, of the losses in the smoothing window.
    pub fn smoothed_loss(&self) -> (r: i64)
        requires
            self.wf(),
        ensures
            r == mean_of(self.window()),
    {
        self.smoothed_loss
    }

    /// Loss of the last completed minibatch: the mean of its passes' losses.
    pub fn loss(&self) -> (r: i64)
        ensures
            r == self.last_loss(),
    {
        self.loss
    }

    /// Whether an evaluation pass asked the current step to stop.
    pub fn requested_early_exit(&self) -> (r: bool)
        ensures
            r == self.exited(),
    {
        self.early_exit
    }

    /// A step that ended neither by an early exit nor by an error has run
    /// exactly the iterations it was started with, however many
    /// forward/backward passes each of them took.
    pub proof fn lemma_completed_step_count(&self)
        requires
            self.wf(),
            self.action() == Action::Done,
            !self.exited(),
            !self.halted(),
        ensures
            self.iteration() == self.step_stop(),
            self.step_start() <= self.iteration(),
    {
    }
}

impl<S: ISolver> Solver<S> {
    /// Sets up a solver: checks the settings, merges the training phase into
    /// the network settings and starts at iteration 0. The network is built
    /// by the caller from `config().train_net`.
    pub fn new(kind: SolverKind, worker: S, param: SolverConfig) -> (r: Result<Solver<S>, SolverError>)
        ensures
            param.average_loss < 2 <==> r == Err::<Solver<S>, SolverError>(SolverError::InvalidAverageLoss),
            param.average_loss >= 2 && param.minibatch_size == 0 <==> r == Err::<Solver<S>, SolverError>(
                SolverError::InvalidMinibatchSize,
            ),
            r is Ok <==> param.average_loss >= 2 && param.minibatch_size >= 1,
            r matches Ok(s) ==> {
                &&& s.wf()
                &&& s.iteration() == 0
                &&& s.schedule_step() == 0
                &&& s.solver_kind() == kind
                &&& s.rule() == worker
                &&& !s.rule_ready()
                &&& s.action() == Action::Done
                &&& s.window().len() == 0
                &&& !s.exited() && !s.halted()
                &&& s.config().train_net.phase == merged_phase(param.train_net.phase)
                &&& s.config() == (SolverConfig {
                    train_net: s.config().train_net,
                    ..param
                })
                &&& s.config().train_net.name == param.train_net.name
            },
    {
        if param.average_loss < 2 {
            return Err(SolverError::InvalidAverageLoss);
        }
        if param.minibatch_size == 0 {
            return Err(SolverError::InvalidMinibatchSize);
        }
        let mut param = param;
        param.train_net.phase = match param.train_net.phase {
            Some(p) => Some(p),
            None => Some(NetworkPhase::Train),
        };
        Ok(Solver {
            kind,
            worker,
            param,
            iter: 0,
            current_step: 0,
            start_iter: 0,
            stop_iter: 0,
            next: Action::Done,
            passes: 0,
            pass_sum: 0,
            loss: 0,
            losses: Vec::new(),
            loss_sum: 0,
            smoothed_loss: 0,
            early_exit: false,
            failed: false,
            worker_ready: false,
        })
    }

    /// Starts a step of `iters` iterations from the current one.
    pub fn step(&mut self, iters: usize)
        requires
            old(self).wf(),
            old(self).action() == Action::Done,
            old(self).iteration() + iters <= usize::MAX,
        ensures
            final(self).wf(),
            final(self).iteration() == old(self).iteration(),
            final(self).step_start() == old(self).iteration(),
            final(self).step_stop() == old(self).iteration() + iters,
            final(self).action() == if iters > 0 { Action::ClearDiffs } else { Action::Done },
            final(self).window() == old(self).window(),
            final(self).config() == old(self).config(),
            final(self).rule() == old(self).rule(),
            final(self).rule_ready() == old(self).rule_ready(),
            !final(self).exited() && !final(self).halted(),
    {
        self.start_iter = self.iter;
        self.stop_iter = self.iter + iters;
        self.early_exit = false;
        self.failed = false;
        self.next = if iters > 0 { Action::ClearDiffs } else { Action::Done };
    }

    /// Starts a run of `SOLVE_ITERATIONS` iterations.
    pub fn solve(&mut self)
        requires
            old(self).wf(),
            old(self).action() == Action::Done,
            old(self).iteration() + SOLVE_ITERATIONS <= usize::MAX,
        ensures
            final(self).wf(),
            final(self).iteration() == old(self).iteration(),
            final(self).step_start() == old(self).iteration(),
            final(self).step_stop() == old(self).iteration() + SOLVE_ITERATIONS,
            final(self).action() == Action::ClearDiffs,
            final(self).window() == old(self).window(),
            final(self).config() == old(self).config(),
            final(self).rule() == old(self).rule(),
            final(self).rule_ready() == old(self).rule_ready(),
            !final(self).exited() && !final(self).halted(),
    {
        self.step(SOLVE_ITERATIONS);
    }

    /// Asks the step in progress to stop; it ends at the boundary of the
    /// last completed iteration, before the next one begins.
    pub fn request_early_exit(&mut self)
        requires
            old(self).wf(),
            old(self).action() == Action::ClearDiffs,
        ensures
            final(self).wf(),
            final(self).action() == Action::Done,
            final(self).exited(),
            final(self).halted() == old(self).halted(),
            final(self).iteration() == old(self).iteration(),
            final(self).step_start() == old(self).step_start(),
            final(self).step_stop() == old(self).step_stop(),
            final(self).window() == old(self).window(),
            final(self).last_loss() == old(self).last_loss(),
            final(self).config() == old(self).config(),
            final(self).rule() == old(self).rule(),
            final(self).rule_ready() == old(self).rule_ready(),
    {
        self.early_exit = true;
        self.next = Action::Done;
    }

    /// Zeroes every parameter gradient at the start of an iteration. An
    /// evaluation pass follows when one is due, else the first
    /// forward/backward pass.
    pub fn clear_diffs(&mut self, diffs: &mut Vec<Vec<i64>>)
        requires
            old(self).wf(),
            old(self).action() == Action::ClearDiffs,
        ensures
            final(self).wf(),
            same_shapes(final(diffs)@, old(diffs)@),
            all_zero(final(diffs)@),
            final(self).action() == if test_due(old(self).config(), old(self).iteration()) {
                Action::Test
            } else {
                Action::ForwardBackward
            },
            final(self).pass_count() == 0,
            final(self).pass_total() == 0,
            final(self).iteration() == old(self).iteration(),
            final(self).step_start() == old(self).step_start(),
            final(self).step_stop() == old(self).step_stop(),
            final(self).window() == old(self).window(),
            final(self).config() == old(self).config(),
            final(self).rule() == old(self).rule(),
            final(self).rule_ready() == old(self).rule_ready(),
            final(self).exited() == old(self).exited(),
            final(self).halted() == old(self).halted(),
    {
        let mut p: usize = 0;
        while p < diffs.len()
            invariant
                p <= diffs@.len(),
                same_shapes(diffs@, old(diffs)@),
                forall|q: int, i: int| 0 <= q < p && 0 <= i < diffs@[q]@.len() ==> (#[trigger] diffs@[q]@[i]) == 0,
            decreases diffs@.len() - p,
        {
            let n = diffs[p].len();
            diffs[p] = zeros(n);
            p = p + 1;
        }
        let due = match self.param.test_interval {
            Some(n) => n > 0 && self.iter % n == 0 && (self.iter > 0 || self.param.test_initialization),
            None => false,
        };
        self.next = if due { Action::Test } else { Action::ForwardBackward };
    }

    /// Reports the end of an evaluation pass. A request to stop ends the step
    /// before this iteration's update.
    pub fn test_done(&mut self, early_exit: bool)
        requires
            old(self).wf(),
            old(self).action() == Action::Test,
        ensures
            final(self).wf(),
            final(self).action() == if early_exit { Action::Done } else { Action::ForwardBackward },
            final(self).exited() == early_exit,
            final(self).halted() == old(self).halted(),
            final(self).pass_count() == 0,
            final(self).pass_total() == 0,
            final(self).iteration() == old(self).iteration(),
            final(self).step_start() == old(self).step_start(),
            final(self).step_stop() == old(self).step_stop(),
            final(self).window() == old(self).window(),
            final(self).config() == old(self).config(),
            final(self).rule() == old(self).rule(),
            final(self).rule_ready() == old(self).rule_ready(),
    {
        if early_exit {
            self.early_exit = true;
            self.next = Action::Done;
        } else {
            self.next = Action::ForwardBackward;
        }
    }

    /// Reports the loss of one forward/backward pass. After
    /// `minibatch_size` passes their mean, rounded down, is the iteration's
    /// loss: it enters the smoothing window, and the update is due.
    pub fn pass_done(&mut self, loss: i64)
        requires
            old(self).wf(),
            old(self).action() == Action::ForwardBackward,
        ensures
            final(self).wf(),
            ({
                let total = old(self).pass_total() + loss;
                let mb = old(self).config().minibatch_size;
                let avg = old(self).config().average_loss;
                if old(self).pass_count() + 1 < mb {
                    &&& final(self).action() == Action::ForwardBackward
                    &&& final(self).pass_count() == old(self).pass_count() + 1
                    &&& final(self).pass_total() == total
                    &&& final(self).window() == old(self).window()
                    &&& final(self).last_loss() == old(self).last_loss()
                } else {
                    &&& final(self).action() == Action::ApplyUpdate
                    &&& final(self).pass_count() == 0
                    &&& final(self).last_loss() == total / mb as int
                    &&& final(self).window() == record_loss(
                        old(self).window(),
                        avg as nat,
                        (old(self).iteration() - old(self).step_start()) % (avg as int),
                        final(self).last_loss() as i64,
                    )
                }
            }),
            final(self).iteration() == old(self).iteration(),
            final(self).step_start() == old(self).step_start(),
            final(self).step_stop() == old(self).step_stop(),
            final(self).config() == old(self).config(),
            final(self).rule() == old(self).rule(),
            final(self).rule_ready() == old(self).rule_ready(),
            final(self).exited() == old(self).exited(),
            final(self).halted() == old(self).halted(),
    {
        proof {
            assert((self.passes + 1) * (i64::MIN as int) == self.passes * (i64::MIN as int) + i64::MIN) by (nonlinear_arith);
            assert((self.passes + 1) * (i64::MAX as int) == self.passes * (i64::MAX as int) + i64::MAX) by (nonlinear_arith);
            assert(self.passes * (i64::MAX as int) <= 0x7fff_ffff_ffff_ffff_ffff_ffff_ffff_ffffint) by (nonlinear_arith)
                requires self.passes <= usize::MAX;
            assert(self.passes * (i64::MIN as int) >= -0x7fff_ffff_ffff_ffff_ffff_ffff_ffff_ffffint) by (nonlinear_arith)
                requires self.passes <= usize::MAX;
        }
        let total: i128 = self.pass_sum + loss as i128;
        let count: usize = self.passes + 1;
        if count < self.param.minibatch_size {
            self.passes = count;
            self.pass_sum = total;
            return;
        }
        let mean: i64 = mean_fits(total, count);
        self.loss = mean;
        self.passes = 0;
        self.pass_sum = 0;
        self.record(mean);
        self.next = Action::ApplyUpdate;
    }

    /// Enters an iteration's loss into the smoothing window.
    fn record(&mut self, loss: i64)
        requires
            old(self).wf(),
            old(self).next == Action::ForwardBackward,
        ensures
            final(self).losses@ == record_loss(
                old(self).losses@,
                old(self).param.average_loss as nat,
                (old(self).iter - old(self).start_iter) % (old(self).param.average_loss as int),
                loss,
            ),
            final(self).losses@.len() <= final(self).param.average_loss,
            final(self).loss_sum == sum_of(final(self).losses@),
            final(self).smoothed_loss == mean_of(final(self).losses@),
            final(self).param == old(self).param,
            final(self).iter == old(self).iter,
            final(self).start_iter == old(self).start_iter,
            final(self).stop_iter == old(self).stop_iter,
            final(self).next == old(self).next,
            final(self).passes == old(self).passes,
            final(self).pass_sum == old(self).pass_sum,
            final(self).loss == old(self).loss,
            final(self).early_exit == old(self).early_exit,
            final(self).failed == old(self).failed,
            final(self).worker == old(self).worker,
            final(self).worker_ready == old(self).worker_ready,
    {
        let ghost before = self.losses@;
        proof {
            lemma_sum_bounds(before);
        }
        if self.losses.len() < self.param.average_loss {
            self.losses.push(loss);
            assert(self.losses@.drop_last() =~= before);
            self.loss_sum = self.loss_sum + loss as i128;
        } else {
            let idx: usize = (self.iter - self.start_iter) % self.param.average_loss;
            let evicted: i64 = self.losses[idx];
            proof {
                lemma_sum_update(before, idx as int, loss);
                lemma_sum_bounds(before.update(idx as int, loss));
            }
            self.losses[idx] = loss;
            self.loss_sum = self.loss_sum + (loss as i128 - evicted as i128);
        }
        proof {
            lemma_sum_bounds(self.losses@);
        }
        self.smoothed_loss = mean_fits(self.loss_sum, self.losses.len());
    }

    /// Hands the accumulated gradients to the update rule, which overwrites
    /// them with the steps to apply, and counts the iteration. The rule is
    /// sized to the gradient table on first use. An error ends the step and
    /// leaves the count at the last completed iteration.
    pub fn apply_update(&mut self, diffs: &mut Vec<Vec<i64>>, global_lr: i64, blob_lrs: &Vec<i64>) -> (r: Result<(), SolverError>)
        requires
            old(self).wf(),
            old(self).action() == Action::ApplyUpdate,
        ensures
            final(self).wf(),
            same_shapes(final(diffs)@, old(diffs)@),
            r is Ok ==> final(self).iteration() == old(self).iteration() + 1,
            r is Ok ==> final(self).action() == if old(self).iteration() + 1 < old(self).step_stop() {
                Action::ClearDiffs
            } else {
                Action::Done
            },
            r is Ok ==> !final(self).halted(),
            r is Err ==> final(self).iteration() == old(self).iteration(),
            r is Err ==> final(self).action() == Action::Done && final(self).halted(),
            final(self).rule_ready(),
            old(self).rule_ready() ==> S::applied(
                old(self).rule(),
                final(self).rule(),
                old(self).config(),
                global_lr,
                blob_lrs@,
                old(diffs)@,
                final(diffs)@,
                r is Ok,
            ),
            !old(self).rule_ready() ==> exists|mid: S|
                #[trigger] S::sized_for(mid, shapes_of(old(diffs)@)) && S::applied(
                    mid,
                    final(self).rule(),
                    old(self).config(),
                    global_lr,
                    blob_lrs@,
                    old(diffs)@,
                    final(diffs)@,
                    r is Ok,
                ),
            final(self).step_start() == old(self).step_start(),
            final(self).step_stop() == old(self).step_stop(),
            final(self).window() == old(self).window(),
            final(self).last_loss() == old(self).last_loss(),
            final(self).config() == old(self).config(),
            final(self).exited() == old(self).exited(),
    {
        if !self.worker_ready {
            let mut shapes: Vec<usize> = Vec::with_capacity(diffs.len());
            let mut p: usize = 0;
            while p < diffs.len()
                invariant
                    p <= diffs@.len(),
                    shapes@.len() == p,
                    forall|q: int| 0 <= q < p ==> #[trigger] shapes@[q] == diffs@[q]@.len(),
                decreases diffs@.len() - p,
            {
                shapes.push(diffs[p].len());
                p = p + 1;
            }
            assert(shapes@ =~= shapes_of(diffs@));
            self.worker.init(&shapes);
            self.worker_ready = true;
        }
        let ghost mid = self.worker;
        let res = self.worker.apply_update(&self.param, diffs, global_lr, blob_lrs);
        match res {
            Ok(()) => {
                assert(S::applied(mid, self.worker, self.param, global_lr, blob_lrs@, old(diffs)@, diffs@, true));
                self.iter = self.iter + 1;
                self.next = if self.iter < self.stop_iter { Action::ClearDiffs } else { Action::Done };
                Ok(())
            },
            Err(e) => {
                assert(S::applied(mid, self.worker, self.param, global_lr, blob_lrs@, old(diffs)@, diffs@, false));
                self.failed = true;
                self.next = Action::Done;
                Err(e)
            },
        }
    }
}

} // verus!
