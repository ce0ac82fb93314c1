use leaf::config::{NetworkConfig, NetworkPhase, SolverConfig, SolverError, SolverKind};
use leaf::fixed::{floor_div, mul_fixed, SCALE};
use leaf::momentum::Momentum;
use leaf::solver::{Action, Solver};

fn fx(x: f32) -> i64 {
    (x * SCALE as f32) as i64
}

fn config(average_loss: usize, minibatch_size: usize) -> SolverConfig {
    let mut c = SolverConfig::default();
    c.average_loss = average_loss;
    c.minibatch_size = minibatch_size;
    c
}

fn solver(c: SolverConfig) -> Solver<Momentum> {
    Solver::new(SolverKind::SGD, Momentum::new(), c).unwrap()
}

/// Runs one iteration: clear, optional test (no exit), the given pass losses, update.
fn run_iteration(s: &mut Solver<Momentum>, diffs: &mut Vec<Vec<i64>>, losses: &[i64]) {
    assert_eq!(s.next_action(), Action::ClearDiffs);
    s.clear_diffs(diffs);
    if s.next_action() == Action::Test {
        s.test_done(false);
    }
    for &l in losses {
        assert_eq!(s.next_action(), Action::ForwardBackward);
        s.pass_done(l);
    }
    assert_eq!(s.next_action(), Action::ApplyUpdate);
    let lrs = vec![SCALE; diffs.len()];
    s.apply_update(diffs, SCALE, &lrs).unwrap();
}

#[test]
fn average_loss_below_two_is_rejected() {
    for bad in [0usize, 1] {
        let r = Solver::new(SolverKind::SGD, Momentum::new(), config(bad, 1));
        assert!(matches!(r, Err(SolverError::InvalidAverageLoss)));
    }
    assert!(Solver::new(SolverKind::SGD, Momentum::new(), config(2, 1)).is_ok());
}

#[test]
fn zero_minibatch_is_rejected() {
    let r = Solver::new(SolverKind::SGD, Momentum::new(), config(2, 0));
    assert!(matches!(r, Err(SolverError::InvalidMinibatchSize)));
}

#[test]
fn zero_test_interval_means_no_evaluation() {
    let mut c = config(2, 1);
    c.test_interval = Some(0);
    let mut s = solver(c);
    let mut diffs = vec![vec![0i64]];
    s.step(2);
    s.clear_diffs(&mut diffs);
    assert_eq!(s.next_action(), Action::ForwardBackward);
}

#[test]
fn new_solver_starts_at_zero_with_train_phase() {
    let s = solver(config(3, 1));
    assert_eq!(s.iter(), 0);
    assert_eq!(s.next_action(), Action::Done);
    assert_eq!(s.smoothed_loss(), 0);
    assert_eq!(s.kind(), SolverKind::SGD);
    assert_eq!(s.param().train_net.phase, Some(NetworkPhase::Train));
    let mut c = config(3, 1);
    c.train_net = NetworkConfig { name: "eval".to_string(), phase: Some(NetworkPhase::Test) };
    let s = solver(c);
    assert_eq!(s.param().train_net.phase, Some(NetworkPhase::Test));
    assert_eq!(s.param().train_net.name, "eval");
}

#[test]
fn default_config_values() {
    let c = SolverConfig::default();
    assert_eq!(c.name, "");
    assert_eq!(c.average_loss, 1);
    assert_eq!(c.test_interval, None);
    assert!(c.test_initialization);
    assert_eq!(c.minibatch_size, 1);
    assert_eq!(c.momentum, 0);
    assert_eq!(c.test_interval(), 0);
    let mut c = c;
    c.test_interval = Some(5);
    assert_eq!(c.test_interval(), 5);
}

#[test]
fn step_advances_iter_by_exactly_n() {
    for mb in [1usize, 3] {
        let mut s = solver(config(2, mb));
        let mut diffs = vec![vec![0i64; 2]];
        s.step(5);
        for _ in 0..5 {
            let losses = vec![fx(1.0); mb];
            run_iteration(&mut s, &mut diffs, &losses);
        }
        assert_eq!(s.iter(), 5);
        assert_eq!(s.next_action(), Action::Done);
        assert!(!s.requested_early_exit());
        s.step(2);
        run_iteration(&mut s, &mut diffs, &vec![fx(1.0); mb]);
        run_iteration(&mut s, &mut diffs, &vec![fx(1.0); mb]);
        assert_eq!(s.iter(), 7);
    }
}

#[test]
fn step_of_zero_iterations_does_nothing() {
    let mut s = solver(config(2, 1));
    s.step(0);
    assert_eq!(s.next_action(), Action::Done);
    assert_eq!(s.iter(), 0);
}

#[test]
fn solve_runs_one_hundred_iterations() {
    let mut s = solver(config(2, 1));
    let mut diffs = vec![vec![0i64; 1]];
    s.solve();
    let mut n = 0;
    while s.next_action() != Action::Done {
        run_iteration(&mut s, &mut diffs, &[fx(0.5)]);
        n += 1;
    }
    assert_eq!(n, 100);
    assert_eq!(s.iter(), 100);
}

#[test]
fn loss_smoothing_is_exact() {
    let mut s = solver(config(3, 1));
    let mut diffs = vec![vec![0i64; 1]];
    s.step(4);
    let expected = [1.0f32, 1.5, 2.0, 3.0];
    for (k, l) in [1.0f32, 2.0, 3.0, 4.0].iter().enumerate() {
        run_iteration(&mut s, &mut diffs, &[fx(*l)]);
        assert_eq!(s.smoothed_loss(), fx(expected[k]));
    }
}

#[test]
fn minibatch_loss_is_the_mean_of_its_passes() {
    let mut s = solver(config(2, 4));
    let mut diffs = vec![vec![0i64; 1]];
    s.step(1);
    run_iteration(&mut s, &mut diffs, &[fx(2.0), fx(2.0), fx(2.0), fx(2.0)]);
    assert_eq!(s.loss(), fx(2.0));
    assert_eq!(s.smoothed_loss(), fx(2.0));
    assert_eq!(s.iter(), 1);
}

#[test]
fn minibatch_mean_rounds_down() {
    let mut s = solver(config(2, 2));
    let mut diffs = vec![vec![0i64; 1]];
    s.step(1);
    run_iteration(&mut s, &mut diffs, &[-1, 0]);
    assert_eq!(s.loss(), -1);
}

#[test]
fn diffs_are_zero_after_clear() {
    let mut s = solver(config(2, 1));
    let mut diffs = vec![vec![5i64, -7, 9], vec![1i64]];
    s.step(2);
    s.clear_diffs(&mut diffs);
    assert_eq!(diffs, vec![vec![0i64, 0, 0], vec![0i64]]);
    assert_eq!(s.next_action(), Action::ForwardBackward);
    diffs[0][1] = 3;
    s.pass_done(fx(1.0));
    s.apply_update(&mut diffs, SCALE, &vec![SCALE, SCALE]).unwrap();
    assert_eq!(s.next_action(), Action::ClearDiffs);
    s.clear_diffs(&mut diffs);
    assert_eq!(diffs, vec![vec![0i64, 0, 0], vec![0i64]]);
}

#[test]
fn early_exit_after_test_skips_the_update() {
    let mut c = config(2, 1);
    c.test_interval = Some(1);
    let mut s = solver(c);
    let mut diffs = vec![vec![fx(1.0)]];
    s.step(3);
    s.clear_diffs(&mut diffs);
    assert_eq!(s.next_action(), Action::Test);
    s.test_done(true);
    assert_eq!(s.next_action(), Action::Done);
    assert!(s.requested_early_exit());
    assert_eq!(s.iter(), 0);
    assert_eq!(diffs, vec![vec![0i64]]);
}

#[test]
fn tests_follow_the_interval() {
    let mut c = config(2, 1);
    c.test_interval = Some(2);
    c.test_initialization = false;
    let mut s = solver(c);
    let mut diffs = vec![vec![0i64]];
    s.step(3);
    let mut tested = Vec::new();
    while s.next_action() != Action::Done {
        s.clear_diffs(&mut diffs);
        let t = s.next_action() == Action::Test;
        tested.push(t);
        if t {
            s.test_done(false);
        }
        s.pass_done(0);
        s.apply_update(&mut diffs, SCALE, &vec![SCALE]).unwrap();
    }
    assert_eq!(tested, vec![false, false, true]);
}

#[test]
fn update_rule_turns_gradients_into_momentum_steps() {
    let mut c = config(2, 1);
    c.momentum = fx(0.5);
    let mut s = solver(c);
    s.step(2);
    let mut diffs = vec![vec![0i64, 0]];
    s.clear_diffs(&mut diffs);
    s.pass_done(0);
    diffs[0] = vec![fx(1.0), fx(-2.0)];
    // global rate 0.5, per-parameter rate 1.0
    s.apply_update(&mut diffs, fx(0.5), &vec![SCALE]).unwrap();
    assert_eq!(diffs, vec![vec![fx(0.5), fx(-1.0)]]);
    s.clear_diffs(&mut diffs);
    s.pass_done(0);
    diffs[0] = vec![fx(1.0), fx(-2.0)];
    s.apply_update(&mut diffs, fx(0.5), &vec![SCALE]).unwrap();
    // 0.5 * 1.0 + 0.5 * 0.5 and 0.5 * -2.0 + 0.5 * -1.0
    assert_eq!(diffs, vec![vec![fx(0.75), fx(-1.5)]]);
}

#[test]
fn shape_mismatch_halts_the_step() {
    let mut s = solver(config(2, 1));
    s.step(2);
    let mut diffs = vec![vec![0i64, 0]];
    s.clear_diffs(&mut diffs);
    s.pass_done(0);
    let r = s.apply_update(&mut diffs, SCALE, &vec![SCALE, SCALE]);
    assert_eq!(r, Err(SolverError::ShapeMismatch));
    assert_eq!(s.iter(), 0);
    assert_eq!(s.next_action(), Action::Done);
    assert!(!s.requested_early_exit());
}

#[test]
fn fixed_point_products_round_down() {
    assert_eq!(mul_fixed(fx(1.5), fx(2.0)), Some(fx(3.0)));
    assert_eq!(mul_fixed(-1, 1), Some(-1));
    assert_eq!(mul_fixed(1, 1), Some(0));
    assert_eq!(mul_fixed(i64::MAX, fx(2.0)), None);
    assert_eq!(floor_div(-3, 2), -2);
    assert_eq!(floor_div(7, 2), 3);
}

#[test]
fn stop_request_ends_step_between_iterations() {
    let mut s = solver(config(2, 1));
    let mut diffs = vec![vec![0i64]];
    s.step(4);
    run_iteration(&mut s, &mut diffs, &[fx(1.0)]);
    assert_eq!(s.next_action(), Action::ClearDiffs);
    s.request_early_exit();
    assert_eq!(s.next_action(), Action::Done);
    assert!(s.requested_early_exit());
    assert_eq!(s.iter(), 1);
    assert_eq!(s.current_step(), 0);
}
