use stat_sim::order::order_key;
use stat_sim::tally::{TrialOutcome, TrialTally};
use stat_sim::validate::{ParamError, ParamKeys};

fn key(x: f64) -> i64 {
    order_key(x.to_bits())
}

fn params(sims: usize, alpha: f64) -> ParamKeys {
    ParamKeys {
        group1_std: key(1.0),
        group2_std: key(1.0),
        sample_size_per_group: 30,
        num_simulations: sims,
        alpha_level: key(alpha),
    }
}

fn outcome(p: f64, d: f64, lower: f64, upper: f64) -> TrialOutcome {
    TrialOutcome { p_value: key(p), effect_size: key(d), ci_lower: key(lower), ci_upper: key(upper) }
}

fn edges20() -> Vec<i64> {
    (0..=20).map(|i| key(i as f64 * (1.0 / 20.0))).collect()
}

#[test]
fn start_rejects_invalid_parameters() {
    assert_eq!(TrialTally::start(&params(0, 0.05), key(0.0)).err(), Some(ParamError::ZeroSimulations));
    assert_eq!(TrialTally::start(&params(10, 1.5), key(0.0)).err(), Some(ParamError::AlphaOutOfRange));
}

#[test]
fn three_trials_are_counted() {
    let mut t = TrialTally::start(&params(3, 0.05), key(0.0)).unwrap();
    assert!(t.needs_trial());
    assert!(t.record(outcome(0.01, 0.9, 0.2, 1.6)));
    assert!(!t.record(outcome(0.05, 0.1, -0.4, 0.6)));
    assert!(t.needs_trial());
    assert!(!t.record(outcome(0.5, -0.2, -0.7, 0.0)));
    assert!(!t.needs_trial());
    assert_eq!(t.total_count(), 3);
    assert_eq!(t.significant_count(), 1);
    assert_eq!(t.coverage_count(), 2);
    assert_eq!(t.p_values(), vec![key(0.01), key(0.05), key(0.5)]);
    assert_eq!(t.effect_sizes(), vec![key(0.9), key(0.1), key(-0.2)]);

    let s = t.summarize(&edges20());
    assert_eq!(s.total_count, 3);
    assert_eq!(s.significant_count, 1);
    assert!(s.significant_count <= s.total_count);
    assert_eq!(s.coverage_count, 2);
    assert!(s.coverage_count <= s.total_count);
    assert_eq!(s.effect_size_ci, (key(-0.2), key(0.9)));
    assert_eq!(s.histogram.len(), 20);
    assert_eq!(s.histogram.iter().map(|b| b.count).sum::<usize>(), 3);
    assert_eq!(s.histogram[0].count, 1);
    assert_eq!(s.histogram[1].count, 1);
    assert_eq!(s.histogram[10].count, 1);
    assert!(s.histogram[0].significant);
}

#[test]
fn coverage_includes_both_ends() {
    let mut t = TrialTally::new(key(0.05), key(0.5), 3);
    t.record(outcome(0.3, 0.5, 0.5, 0.9));
    t.record(outcome(0.3, 0.5, 0.1, 0.5));
    t.record(outcome(0.3, 0.5, 0.6, 0.9));
    assert_eq!(t.coverage_count(), 2);
    assert_eq!(t.significant_count(), 0);
}

#[test]
fn single_trial_summary() {
    let mut t = TrialTally::new(key(0.05), key(0.0), 1);
    assert!(t.record(outcome(0.001, 1.5, 0.5, 2.5)));
    let s = t.summarize(&edges20());
    assert_eq!(s.effect_size_ci, (key(1.5), key(1.5)));
    assert_eq!(s.coverage_count, 0);
    assert_eq!(s.total_count, 1);
}
