use vstd::prelude::*;
use vstd::string::StringExecFns;

verus! {

/// Order key of `+0.0`.
pub const ZERO_KEY: i64 = 0;

/// Order key of `1.0`.
pub const ONE_KEY: i64 = 0x3FF0_0000_0000_0000;

/// Why a configuration was rejected before any sampling.
#[derive(Debug, Clone, Copy, PartialEq, Eq, Structural)]
pub enum ParamError {
    NonPositiveStd,
    ZeroSampleSize,
    ZeroSimulations,
    AlphaOutOfRange,
    ConfidenceOutOfRange,
}

/// What validation reads of a simulation's parameters. Real-valued fields
/// are given by their order keys (see `order::order_key`).
#[derive(Debug, Clone, Copy, PartialEq, Eq, Structural)]
pub struct ParamKeys {
    pub group1_std: i64,
    pub group2_std: i64,
    pub sample_size_per_group: usize,
    pub num_simulations: usize,
    pub alpha_level: i64,
}

/// A key strictly inside the open unit interval.
pub open spec fn in_open_unit(k: i64) -> bool {
    ZERO_KEY < k && k < ONE_KEY
}

/// The first rule that `p` breaks, in the order in which they are checked.
pub open spec fn param_error(p: ParamKeys) -> Option<ParamError> {
    if p.group1_std <= ZERO_KEY || p.group2_std <= ZERO_KEY {
        Some(ParamError::NonPositiveStd)
    } else if p.sample_size_per_group == 0 {
        Some(ParamError::ZeroSampleSize)
    } else if p.num_simulations == 0 {
        Some(ParamError::ZeroSimulations)
    } else if !in_open_unit(p.alpha_level) {
        Some(ParamError::AlphaOutOfRange)
    } else {
        None
    }
}

/// Accepts a configuration exactly when both deviations are positive, both
/// counts are non-zero and the significance level lies in (0, 1).
pub fn validate_params(p: &ParamKeys) -> (r: Result<(), ParamError>)
    ensures
        r.is_ok() <==> param_error(*p).is_none(),
        r.is_err() ==> Some(r->Err_0) == param_error(*p),
{
    validate_sampling(p.group1_std, p.group2_std, p.sample_size_per_group)?;
    if p.num_simulations == 0 {
        return Err(ParamError::ZeroSimulations);
    }
    if p.alpha_level <= ZERO_KEY || p.alpha_level >= ONE_KEY {
        return Err(ParamError::AlphaOutOfRange);
    }
    Ok(())
}

/// The first rule that a sampling request breaks: both deviations must be
/// positive and the sample size non-zero.
pub open spec fn sampling_error(group1_std: i64, group2_std: i64, n: usize) -> Option<ParamError> {
    if group1_std <= ZERO_KEY || group2_std <= ZERO_KEY {
        Some(ParamError::NonPositiveStd)
    } else if n == 0 {
        Some(ParamError::ZeroSampleSize)
    } else {
        None
    }
}

/// Accepts a sampling request exactly when both deviations are positive
/// and the sample size is non-zero.
pub fn validate_sampling(group1_std: i64, group2_std: i64, n: usize) -> (r: Result<(), ParamError>)
    ensures
        r.is_ok() <==> sampling_error(group1_std, group2_std, n).is_none(),
        r.is_err() ==> Some(r->Err_0) == sampling_error(group1_std, group2_std, n),
{
    if group1_std <= ZERO_KEY || group2_std <= ZERO_KEY {
        return Err(ParamError::NonPositiveStd);
    }
    if n == 0 {
        return Err(ParamError::ZeroSampleSize);
    }
    Ok(())
}

/// Accepts a confidence level exactly when its key lies in (0, 1).
pub fn check_confidence_level(level: i64) -> (r: Result<(), ParamError>)
    ensures
        r.is_ok() <==> in_open_unit(level),
        r.is_err() ==> r->Err_0 == ParamError::ConfidenceOutOfRange,
{
    if level <= ZERO_KEY || level >= ONE_KEY {
        Err(ParamError::ConfidenceOutOfRange)
    } else {
        Ok(())
    }
}

impl ParamError {
    /// The text of this error.
    pub open spec fn spec_message(self) -> Seq<char> {
        match self {
            ParamError::NonPositiveStd => "Standard deviations must be positive"@,
            ParamError::ZeroSampleSize => "Sample size must be positive"@,
            ParamError::ZeroSimulations => "Number of simulations must be positive"@,
            ParamError::AlphaOutOfRange => "Alpha level must be between 0 and 1"@,
            ParamError::ConfidenceOutOfRange => "Confidence level must be between 0 and 1"@,
        }
    }

    /// The text shown to a caller for this error.
    pub fn message(&self) -> (r: String)
        ensures
            r@ == self.spec_message(),
    {
        match self {
            ParamError::NonPositiveStd => String::from_str("Standard deviations must be positive"),
            ParamError::ZeroSampleSize => String::from_str("Sample size must be positive"),
            ParamError::ZeroSimulations => String::from_str(
                "Number of simulations must be positive",
            ),
            ParamError::AlphaOutOfRange => String::from_str("Alpha level must be between 0 and 1"),
            ParamError::ConfidenceOutOfRange => String::from_str(
                "Confidence level must be between 0 and 1",
            ),
        }
    }
}

} // verus!
