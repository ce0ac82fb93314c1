use leaf::config::{SolverConfig, SolverError};
use leaf::fixed::SCALE;
use leaf::momentum::Momentum;
use leaf::solver::ISolver;

fn fx(x: f32) -> i64 {
    (x * SCALE as f32) as i64
}

fn config(momentum: i64) -> SolverConfig {
    let mut c = SolverConfig::default();
    c.momentum = momentum;
    c
}

#[test]
fn zero_momentum_ignores_prior_history() {
    let mut m = Momentum::new();
    m.init(&vec![3]);
    let c = config(0);
    let mut diff = vec![fx(4.0), fx(-2.0), fx(1.0)];
    m.compute_update_value(&c, &mut diff, 0, fx(0.5), SCALE).unwrap();
    assert_eq!(diff, vec![fx(2.0), fx(-1.0), fx(0.5)]);
    let mut diff = vec![fx(1.0), fx(1.0), fx(-8.0)];
    m.compute_update_value(&c, &mut diff, 0, fx(0.5), SCALE).unwrap();
    assert_eq!(diff, vec![fx(0.5), fx(0.5), fx(-4.0)]);
}

#[test]
fn learning_rate_is_global_times_blob_rate() {
    let mut m = Momentum::new();
    m.init(&vec![1]);
    let mut diff = vec![fx(8.0)];
    m.compute_update_value(&config(0), &mut diff, 0, fx(0.5), fx(0.25)).unwrap();
    assert_eq!(diff, vec![fx(1.0)]);
}

#[test]
fn momentum_history_approaches_geometric_limit() {
    let mut m = Momentum::new();
    m.init(&vec![1]);
    let c = config(fx(0.9));
    let d = fx(1.0);
    let mut prev = 0i64;
    for _ in 0..300 {
        let mut diff = vec![d];
        m.compute_update_value(&c, &mut diff, 0, SCALE, SCALE).unwrap();
        assert!(diff[0] >= prev);
        assert!(diff[0] <= fx(10.0));
        prev = diff[0];
    }
    let limit = 10.0f32;
    let got = prev as f32 / SCALE as f32;
    assert!((got - limit).abs() < 0.01 * limit);
}

#[test]
fn overflow_leaves_history_and_diff_unchanged() {
    let mut m = Momentum::new();
    m.init(&vec![2]);
    let c = config(fx(0.5));
    let mut diff = vec![fx(1.0), i64::MAX];
    let r = m.compute_update_value(&c, &mut diff, 0, fx(4.0), SCALE);
    assert_eq!(r, Err(SolverError::Overflow));
    assert_eq!(diff, vec![fx(1.0), i64::MAX]);
    let mut diff = vec![fx(1.0), fx(1.0)];
    m.compute_update_value(&c, &mut diff, 0, SCALE, SCALE).unwrap();
    assert_eq!(diff, vec![fx(1.0), fx(1.0)]);
    let r = m.compute_update_value(&c, &mut vec![1, 1], 0, i64::MAX, i64::MAX);
    assert_eq!(r, Err(SolverError::Overflow));
}

#[test]
fn init_sizes_history_to_each_parameter() {
    let mut m = Momentum::new();
    m.init(&vec![2, 1]);
    let c = config(fx(0.5));
    let mut a = vec![fx(2.0), fx(2.0)];
    let mut b = vec![fx(4.0)];
    m.compute_update_value(&c, &mut a, 0, SCALE, SCALE).unwrap();
    m.compute_update_value(&c, &mut b, 1, SCALE, SCALE).unwrap();
    assert_eq!(a, vec![fx(2.0), fx(2.0)]);
    assert_eq!(b, vec![fx(4.0)]);
}

#[test]
fn failed_update_of_a_later_parameter_changes_nothing() {
    let mut m = Momentum::new();
    m.init(&vec![1, 1]);
    let c = config(fx(0.5));
    let mut diffs = vec![vec![fx(2.0)], vec![i64::MAX]];
    let r = ISolver::apply_update(&mut m, &c, &mut diffs, fx(4.0), &vec![SCALE, SCALE]);
    assert_eq!(r, Err(SolverError::Overflow));
    assert_eq!(diffs, vec![vec![fx(2.0)], vec![i64::MAX]]);
    let mut diffs = vec![vec![fx(2.0)], vec![fx(1.0)]];
    ISolver::apply_update(&mut m, &c, &mut diffs, SCALE, &vec![SCALE, SCALE]).unwrap();
    // the history of the first parameter was still zero
    assert_eq!(diffs, vec![vec![fx(2.0)], vec![fx(1.0)]]);
    let mut short = vec![vec![fx(2.0)], vec![]];
    let r = ISolver::apply_update(&mut m, &c, &mut short, SCALE, &vec![SCALE, SCALE]);
    assert_eq!(r, Err(SolverError::ShapeMismatch));
    assert_eq!(short, vec![vec![fx(2.0)], vec![]]);
}
