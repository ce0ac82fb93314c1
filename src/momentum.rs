//! Stochastic gradient descent with momentum.
//!
//! Each learnable parameter keeps a history buffer of its own shape. On every
//! update the history becomes `local_lr * diff + momentum * history`, and the
//! parameter's diff is overwritten with it: the diff then holds the step to
//! apply. Keeping part of the previous step smooths the direction of travel.
use vstd::prelude::*;
use crate::config::{SolverConfig, SolverError};
use vstd::arithmetic::div_mod::lemma_fundamental_div_mod;
use crate::fixed::{SCALE, fits_i64, fx_mul, mul_fixed, mul_wide, zeros};
use crate::solver::{same_shapes, ISolver};

verus! {

/// The new history value of one element.
pub open spec fn momentum_value(local_lr: int, momentum: int, diff: int, hist: int) -> int {
    fx_mul(local_lr, diff) + fx_mul(momentum, hist)
}

/// Whether every element of an update fits in the fixed-point type.
pub open spec fn update_fits(local_lr: int, momentum: int, diff: Seq<i64>, hist: Seq<i64>) -> bool {
    forall|i: int|
        0 <= i < diff.len() ==> fits_i64(
            #[trigger] momentum_value(local_lr, momentum, diff[i] as int, hist[i] as int),
        )
}

/// Whether `next` is the update of `hist` by `diff`, element by element.
pub open spec fn is_update(
    next: Seq<i64>,
    local_lr: int,
    momentum: int,
    diff: Seq<i64>,
    hist: Seq<i64>,
) -> bool {
    &&& next.len() == diff.len()
    &&& forall|i: int|
        0 <= i < diff.len() ==> next[i] as int == #[trigger] momentum_value(
            local_lr,
            momentum,
            diff[i] as int,
            hist[i] as int,
        )
}

/// With a momentum of zero the new history is the scaled gradient alone,
/// whatever the history held before.
pub proof fn lemma_zero_momentum_forgets(local_lr: int, diff: int, hist: int)
    ensures
        momentum_value(local_lr, 0, diff, hist) == fx_mul(local_lr, diff),
{
    assert(fx_mul(0, hist) == 0);
}

/// History after `n` updates with the same gradient `diff`, from zero.
pub open spec fn history_after(local_lr: int, momentum: int, diff: int, n: nat) -> int
    decreases n,
{
    if n == 0 {
        0
    } else {
        momentum_value(local_lr, momentum, diff, history_after(local_lr, momentum, diff, (n - 1) as nat))
    }
}

proof fn lemma_momentum_step(local_lr: int, momentum: int, diff: int, h: int)
    requires
        0 <= momentum < SCALE as int,
        fx_mul(local_lr, diff) >= 0,
        0 <= h,
        h * ((SCALE as int) - momentum) <= fx_mul(local_lr, diff) * (SCALE as int),
    ensures
        h <= momentum_value(local_lr, momentum, diff, h),
        momentum_value(local_lr, momentum, diff, h) * ((SCALE as int) - momentum) <= fx_mul(
            local_lr,
            diff,
        ) * (SCALE as int),
{
    let a = fx_mul(local_lr, diff);
    let s = SCALE as int;
    lemma_fundamental_div_mod(momentum * h, s);
    let q = (momentum * h) / s;
    let r = (momentum * h) % s;
    assert(fx_mul(momentum, h) == q);
    assert(h <= a + q) by (nonlinear_arith)
        requires
            h * (s - momentum) <= a * s,
            momentum * h == s * q + r,
            0 <= r < s,
            0 <= momentum < s,
            0 <= h,
    ;
    assert((a + q) * (s - momentum) <= a * s) by (nonlinear_arith)
        requires
            h * (s - momentum) <= a * s,
            momentum * h == s * q + r,
            0 <= r < s,
            0 <= momentum < s,
            0 <= h,
            0 <= a,
    ;
}

/// Fed the same non-negative scaled gradient `a = local_lr * diff` every
/// iteration, with a momentum in `[0, 1)`, the history never decreases and
/// never passes the limit `a / (1 - momentum)` of the geometric series.
pub proof fn lemma_momentum_approaches_limit(local_lr: int, momentum: int, diff: int, n: nat)
    requires
        0 <= momentum < SCALE as int,
        fx_mul(local_lr, diff) >= 0,
    ensures
        0 <= history_after(local_lr, momentum, diff, n),
        history_after(local_lr, momentum, diff, n) <= history_after(local_lr, momentum, diff, n + 1),
        history_after(local_lr, momentum, diff, n) * ((SCALE as int) - momentum) <= fx_mul(
            local_lr,
            diff,
        ) * (SCALE as int),
    decreases n,
{
    let a = fx_mul(local_lr, diff);
    if n > 0 {
        lemma_momentum_approaches_limit(local_lr, momentum, diff, (n - 1) as nat);
        let prev = history_after(local_lr, momentum, diff, (n - 1) as nat);
        lemma_momentum_step(local_lr, momentum, diff, prev);
    } else {
        assert(0 <= a * (SCALE as int)) by (nonlinear_arith)
            requires
                0 <= a,
        ;
    }
    lemma_momentum_step(local_lr, momentum, diff, history_after(local_lr, momentum, diff, n));
}

/// One update shrinks the gap to the limit of the geometric series by the
/// momentum factor, up to the rounding of one fixed-point unit: with
/// `G = a * SCALE - h * (SCALE - m)` before and `G'` after,
/// `m * G <= SCALE * G' <= m * G + (SCALE - 1) * (SCALE - m)`.
pub proof fn lemma_momentum_gap_contracts(local_lr: int, momentum: int, diff: int, h: int)
    requires
        0 <= momentum < SCALE as int,
    ensures
        ({
            let s = SCALE as int;
            let a = fx_mul(local_lr, diff);
            let gap = a * s - h * (s - momentum);
            let next_gap = a * s - momentum_value(local_lr, momentum, diff, h) * (s - momentum);
            &&& momentum * gap <= s * next_gap
            &&& s * next_gap <= momentum * gap + (s - 1) * (s - momentum)
        }),
{
    let s = SCALE as int;
    let a = fx_mul(local_lr, diff);
    lemma_fundamental_div_mod(momentum * h, s);
    let q = (momentum * h) / s;
    let r = (momentum * h) % s;
    assert(fx_mul(momentum, h) == q);
    assert(s * (a * s - (a + q) * (s - momentum)) == momentum * (a * s - h * (s - momentum)) + r * (s - momentum))
        by (nonlinear_arith)
        requires
            momentum * h == s * q + r,
    ;
    assert(0 <= r * (s - momentum) <= (s - 1) * (s - momentum)) by (nonlinear_arith)
        requires
            0 <= r < s,
            0 <= momentum < s,
    ;
}

proof fn lemma_momentum_monotone(local_lr: int, momentum: int, diff: int, h: int, g: int)
    requires
        0 <= momentum,
        h <= g,
    ensures
        momentum_value(local_lr, momentum, diff, h) <= momentum_value(local_lr, momentum, diff, g),
{
    assert(momentum * h <= momentum * g) by (nonlinear_arith)
        requires
            0 <= momentum,
            h <= g,
    ;
    vstd::arithmetic::div_mod::lemma_div_is_ordered(momentum * h, momentum * g, SCALE as int);
}

/// Fed the same scaled gradient `a = local_lr * diff <= 0` every iteration,
/// with a non-negative momentum, the history starting from zero never
/// increases and stays at or below zero.
pub proof fn lemma_momentum_descends(local_lr: int, momentum: int, diff: int, n: nat)
    requires
        0 <= momentum,
        fx_mul(local_lr, diff) <= 0,
    ensures
        history_after(local_lr, momentum, diff, n + 1) <= history_after(local_lr, momentum, diff, n),
        history_after(local_lr, momentum, diff, n) <= 0,
    decreases n,
{
    if n == 0 {
        assert(fx_mul(momentum, 0) == 0);
        reveal_with_fuel(history_after, 2);
    } else {
        lemma_momentum_descends(local_lr, momentum, diff, (n - 1) as nat);
        lemma_momentum_monotone(
            local_lr,
            momentum,
            diff,
            history_after(local_lr, momentum, diff, n),
            history_after(local_lr, momentum, diff, (n - 1) as nat),
        );
    }
}

/// Stochastic gradient descent with momentum.
#[derive(Debug, Clone)]
pub struct Momentum {
    /// The step of the previous iteration, one buffer per learnable parameter.
    history: Vec<Vec<i64>>,
}

impl View for Momentum {
    type V = Seq<Seq<i64>>;

    closed spec fn view(&self) -> Seq<Seq<i64>> {
        Seq::new(self.history@.len(), |p: int| self.history@[p]@)
    }
}

impl Momentum {
    /// A rule with no history yet; `init` sizes it to a network.
    pub fn new() -> (r: Momentum)
        ensures
            r@ == Seq::<Seq<i64>>::empty(),
    {
        let r = Momentum { history: Vec::new() };
        assert(r@ =~= Seq::<Seq<i64>>::empty());
        r
    }

    /// Allocates one zeroed history buffer per learnable parameter, of the
    /// length given for it.
    pub fn init(&mut self, shapes: &Vec<usize>)
        ensures
            final(self)@.len() == shapes@.len(),
            forall|p: int|
                0 <= p < shapes@.len() ==> #[trigger] final(self)@[p] == Seq::new(
                    shapes@[p] as nat,
                    |_i: int| 0i64,
                ),
    {
        let mut history: Vec<Vec<i64>> = Vec::with_capacity(shapes.len());
        let mut p: usize = 0;
        while p < shapes.len()
            invariant
                p <= shapes@.len(),
                history@.len() == p,
                forall|q: int|
                    0 <= q < p ==> #[trigger] history@[q]@ == Seq::new(
                        shapes@[q] as nat,
                        |_i: int| 0i64,
                    ),
            decreases shapes@.len() - p,
        {
            history.push(zeros(shapes[p]));
            p = p + 1;
        }
        self.history = history;
    }

    /// Updates the history of parameter `history_blob_id` with `diff` and the
    /// learning rate `global_lr * blob_lr`, then overwrites `diff` with the
    /// new history. Nothing changes when a value would overflow.
    pub fn compute_update_value(
        &mut self,
        config: &SolverConfig,
        diff: &mut Vec<i64>,
        history_blob_id: usize,
        global_lr: i64,
        blob_lr: i64,
    ) -> (r: Result<(), SolverError>)
        requires
            history_blob_id < old(self)@.len(),
            old(diff)@.len() == old(self)@[history_blob_id as int].len(),
        ensures
            ({
                let local_lr = fx_mul(global_lr as int, blob_lr as int);
                let hist = old(self)@[history_blob_id as int];
                &&& r is Ok <==> fits_i64(local_lr) && update_fits(
                    local_lr,
                    config.momentum as int,
                    old(diff)@,
                    hist,
                )
                &&& r is Ok ==> is_update(final(diff)@, local_lr, config.momentum as int, old(diff)@, hist)
                &&& r is Ok ==> final(self)@ == old(self)@.update(history_blob_id as int, final(diff)@)
                &&& r is Err ==> r == Err::<(), SolverError>(SolverError::Overflow)
                &&& r is Err ==> final(self)@ == old(self)@ && final(diff)@ == old(diff)@
            }),
    {
        let local_lr = match mul_fixed(global_lr, blob_lr) {
            Some(v) => v,
            None => return Err(SolverError::Overflow),
        };
        match momentum_next(config.momentum, local_lr, diff, &self.history[history_blob_id]) {
            None => Err(SolverError::Overflow),
            Some(next) => {
                let copy = copy_vec(&next);
                self.history[history_blob_id] = next;
                *diff = copy;
                proof {
                    assert(self@ =~= old(self)@.update(history_blob_id as int, diff@));
                }
                Ok(())
            },
        }
    }
}

/// A copy of `v`.
fn copy_vec(v: &Vec<i64>) -> (r: Vec<i64>)
    ensures
        r@ == v@,
{
    let mut r: Vec<i64> = Vec::with_capacity(v.len());
    let mut i: usize = 0;
    while i < v.len()
        invariant
            i <= v@.len(),
            r@ == v@.take(i as int),
        decreases v@.len() - i,
    {
        r.push(v[i]);
        i = i + 1;
        assert(r@ =~= v@.take(i as int));
    }
    assert(v@.take(v@.len() as int) =~= v@);
    r
}

/// The new history of one parameter, or `None` when an element overflows.
fn momentum_next(momentum: i64, local_lr: i64, diff: &Vec<i64>, hist: &Vec<i64>) -> (r: Option<Vec<i64>>)
    requires
        diff@.len() == hist@.len(),
    ensures
        r is Some <==> update_fits(local_lr as int, momentum as int, diff@, hist@),
        r matches Some(v) ==> is_update(v@, local_lr as int, momentum as int, diff@, hist@),
{
    let mut next: Vec<i64> = Vec::with_capacity(diff.len());
    let mut i: usize = 0;
    while i < diff.len()
        invariant
            i <= diff@.len(),
            diff@.len() == hist@.len(),
            next@.len() == i,
            forall|j: int|
                0 <= j < i ==> fits_i64(
                    #[trigger] momentum_value(local_lr as int, momentum as int, diff@[j] as int, hist@[j] as int),
                ) && next@[j] as int == momentum_value(local_lr as int, momentum as int, diff@[j] as int, hist@[j] as int),
        decreases diff@.len() - i,
    {
        let v: i128 = mul_wide(local_lr, diff[i]) + mul_wide(momentum, hist[i]);
        if v < i64::MIN as i128 || v > i64::MAX as i128 {
            assert(!fits_i64(momentum_value(local_lr as int, momentum as int, diff@[i as int] as int, hist@[i as int] as int)));
            return None;
        }
        next.push(v as i64);
        i = i + 1;
    }
    Some(next)
}

/// Whether the update of one parameter succeeds: its gradient has the
/// history's length, and the learning rate and every new value fit.
pub open spec fn param_fits(momentum: int, global_lr: i64, blob_lr: i64, diff: Seq<i64>, hist: Seq<i64>) -> bool {
    &&& diff.len() == hist.len()
    &&& fits_i64(fx_mul(global_lr as int, blob_lr as int))
    &&& update_fits(fx_mul(global_lr as int, blob_lr as int), momentum, diff, hist)
}

/// Whether the update of every parameter succeeds.
pub open spec fn all_fit(
    momentum: int,
    global_lr: i64,
    blob_lrs: Seq<i64>,
    diffs: Seq<Vec<i64>>,
    hist: Seq<Seq<i64>>,
) -> bool {
    &&& diffs.len() == hist.len()
    &&& blob_lrs.len() == diffs.len()
    &&& forall|p: int| 0 <= p < diffs.len() ==> #[trigger] param_fits(momentum, global_lr, blob_lrs[p], diffs[p]@, hist[p])
}

impl ISolver for Momentum {
    open spec fn sized_for(s: Momentum, shapes: Seq<usize>) -> bool {
        &&& s@.len() == shapes.len()
        &&& forall|p: int| 0 <= p < shapes.len() ==> #[trigger] s@[p] == Seq::new(shapes[p] as nat, |_i: int| 0i64)
    }

    open spec fn applied(
        pre: Momentum,
        post: Momentum,
        config: SolverConfig,
        global_lr: i64,
        blob_lrs: Seq<i64>,
        diffs: Seq<Vec<i64>>,
        next: Seq<Vec<i64>>,
        ok: bool,
    ) -> bool {
        &&& ok <==> all_fit(config.momentum as int, global_lr, blob_lrs, diffs, pre@)
        &&& ok ==> {
            &&& post@.len() == pre@.len()
            &&& next.len() == diffs.len()
            &&& forall|p: int|
                0 <= p < diffs.len() ==> is_update(
                    #[trigger] next[p]@,
                    fx_mul(global_lr as int, blob_lrs[p] as int),
                    config.momentum as int,
                    diffs[p]@,
                    pre@[p],
                ) && post@[p] == next[p]@
        }
        &&& !ok ==> post@ == pre@ && next == diffs
    }

    fn init(&mut self, shapes: &Vec<usize>) {
        Momentum::init(self, shapes);
    }

    fn apply_update(
        &mut self,
        config: &SolverConfig,
        diffs: &mut Vec<Vec<i64>>,
        global_lr: i64,
        blob_lrs: &Vec<i64>,
    ) -> (r: Result<(), SolverError>) {
        if diffs.len() != self.history.len() || blob_lrs.len() != diffs.len() {
            return Err(SolverError::ShapeMismatch);
        }
        let ghost m = config.momentum as int;
        let mut hists: Vec<Vec<i64>> = Vec::with_capacity(diffs.len());
        let mut nexts: Vec<Vec<i64>> = Vec::with_capacity(diffs.len());
        let mut p: usize = 0;
        while p < diffs.len()
            invariant
                p <= diffs@.len(),
                diffs@.len() == self.history@.len(),
                blob_lrs@.len() == diffs@.len(),
                m == config.momentum as int,
                self.history@ == old(self).history@,
                diffs@ == old(diffs)@,
                hists@.len() == p,
                nexts@.len() == p,
                forall|q: int|
                    0 <= q < p ==> #[trigger] param_fits(m, global_lr, blob_lrs@[q], diffs@[q]@, self@[q])
                        && is_update(nexts@[q]@, fx_mul(global_lr as int, blob_lrs@[q] as int), m, diffs@[q]@, self@[q])
                        && hists@[q]@ == nexts@[q]@,
            decreases diffs@.len() - p,
        {
            if diffs[p].len() != self.history[p].len() {
                assert(!param_fits(m, global_lr, blob_lrs@[p as int], diffs@[p as int]@, self@[p as int]));
                return Err(SolverError::ShapeMismatch);
            }
            let lr = match mul_fixed(global_lr, blob_lrs[p]) {
                Some(v) => v,
                None => {
                    assert(!param_fits(m, global_lr, blob_lrs@[p as int], diffs@[p as int]@, self@[p as int]));
                    return Err(SolverError::Overflow);
                },
            };
            match momentum_next(config.momentum, lr, &diffs[p], &self.history[p]) {
                None => {
                    assert(!param_fits(m, global_lr, blob_lrs@[p as int], diffs@[p as int]@, self@[p as int]));
                    return Err(SolverError::Overflow);
                },
                Some(v) => {
                    hists.push(copy_vec(&v));
                    nexts.push(v);
                },
            }
            p = p + 1;
        }
        let ghost pre = *self;
        assert(pre@ =~= old(self)@);
        let ghost old_diffs = diffs@;
        assert(old_diffs == old(diffs)@);
        self.history = hists;
        *diffs = nexts;
        proof {
            assert(self@.len() == pre@.len());
            assert forall|q: int| 0 <= q < old_diffs.len() implies is_update(
                #[trigger] diffs@[q]@,
                fx_mul(global_lr as int, blob_lrs@[q] as int),
                config.momentum as int,
                old_diffs[q]@,
                old(self)@[q],
            ) && self@[q] == diffs@[q]@ && diffs@[q]@.len() == old_diffs[q]@.len() by {
                assert(param_fits(m, global_lr, blob_lrs@[q], old_diffs[q]@, pre@[q]));
                assert(is_update(nexts@[q]@, fx_mul(global_lr as int, blob_lrs@[q] as int), m, old_diffs[q]@, pre@[q]));
            }
            assert(all_fit(config.momentum as int, global_lr, blob_lrs@, old_diffs, old(self)@));
            assert(Momentum::applied(*old(self), *self, *config, global_lr, blob_lrs@, old_diffs, diffs@, true));
        }
        Ok(())
    }
}

} // verus!
