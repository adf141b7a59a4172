use stat_sim::order::order_key;
use stat_sim::validate::{check_confidence_level, validate_params, validate_sampling, ParamError, ParamKeys};

fn key(x: f64) -> i64 {
    order_key(x.to_bits())
}

fn params(std1: f64, std2: f64, n: usize, sims: usize, alpha: f64) -> ParamKeys {
    ParamKeys {
        group1_std: key(std1),
        group2_std: key(std2),
        sample_size_per_group: n,
        num_simulations: sims,
        alpha_level: key(alpha),
    }
}

#[test]
fn zero_std_is_rejected() {
    assert_eq!(validate_params(&params(0.0, 1.0, 30, 100, 0.05)), Err(ParamError::NonPositiveStd));
    assert_eq!(validate_params(&params(1.0, -2.0, 30, 100, 0.05)), Err(ParamError::NonPositiveStd));
    assert_eq!(validate_params(&params(-0.0, 1.0, 30, 100, 0.05)), Err(ParamError::NonPositiveStd));
}

#[test]
fn zero_sample_size_is_rejected() {
    assert_eq!(validate_params(&params(1.0, 1.0, 0, 100, 0.05)), Err(ParamError::ZeroSampleSize));
}

#[test]
fn zero_simulations_is_rejected() {
    assert_eq!(validate_params(&params(1.0, 1.0, 30, 0, 0.05)), Err(ParamError::ZeroSimulations));
}

#[test]
fn alpha_outside_unit_interval_is_rejected() {
    assert_eq!(validate_params(&params(1.0, 1.0, 30, 100, 1.5)), Err(ParamError::AlphaOutOfRange));
    assert_eq!(validate_params(&params(1.0, 1.0, 30, 100, 1.0)), Err(ParamError::AlphaOutOfRange));
    assert_eq!(validate_params(&params(1.0, 1.0, 30, 100, 0.0)), Err(ParamError::AlphaOutOfRange));
}

#[test]
fn first_broken_rule_is_reported() {
    assert_eq!(validate_params(&params(0.0, 1.0, 0, 0, 1.5)), Err(ParamError::NonPositiveStd));
    assert_eq!(validate_params(&params(1.0, 1.0, 0, 0, 1.5)), Err(ParamError::ZeroSampleSize));
}

#[test]
fn valid_parameters_pass() {
    assert_eq!(validate_params(&params(1.0, 2.0, 30, 1000, 0.05)), Ok(()));
    assert_eq!(validate_params(&params(1e-9, 1e9, 1, 1, 0.999)), Ok(()));
}

#[test]
fn sampling_checks() {
    assert_eq!(validate_sampling(key(1.0), key(1.0), 100), Ok(()));
    assert_eq!(validate_sampling(key(0.0), key(1.0), 100), Err(ParamError::NonPositiveStd));
    assert_eq!(validate_sampling(key(1.0), key(1.0), 0), Err(ParamError::ZeroSampleSize));
}

#[test]
fn confidence_level_checks() {
    assert_eq!(check_confidence_level(key(0.95)), Ok(()));
    assert_eq!(check_confidence_level(key(1.0)), Err(ParamError::ConfidenceOutOfRange));
    assert_eq!(check_confidence_level(key(-0.5)), Err(ParamError::ConfidenceOutOfRange));
}

#[test]
fn error_messages() {
    assert_eq!(ParamError::NonPositiveStd.message(), "Standard deviations must be positive");
    assert_eq!(ParamError::ZeroSampleSize.message(), "Sample size must be positive");
    assert_eq!(ParamError::ZeroSimulations.message(), "Number of simulations must be positive");
    assert_eq!(ParamError::AlphaOutOfRange.message(), "Alpha level must be between 0 and 1");
    assert_eq!(ParamError::ConfidenceOutOfRange.message(), "Confidence level must be between 0 and 1");
}
