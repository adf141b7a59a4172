use vstd::prelude::*;
use crate::histogram::{build_histogram, bin_count, num_bins, BinTally};
use crate::percentile::{percentile_bounds, lower_index, upper_index, sorted};
use crate::validate::{validate_params, param_error, ParamError, ParamKeys};

verus! {

/// What the aggregation reads of one trial, each real value given by its
/// order key: the p-value, the effect size and the bounds of its interval.
#[derive(Debug, Clone, Copy, PartialEq, Eq, Structural)]
pub struct TrialOutcome {
    pub p_value: i64,
    pub effect_size: i64,
    pub ci_lower: i64,
    pub ci_upper: i64,
}

/// A trial is significant when its p-value lies below the level.
pub open spec fn is_significant(t: TrialOutcome, alpha: i64) -> bool {
    t.p_value < alpha
}

/// A trial covers the true effect when its interval contains it, both ends
/// included.
pub open spec fn covers(t: TrialOutcome, true_effect: i64) -> bool {
    t.ci_lower <= true_effect <= t.ci_upper
}

/// Number of significant trials in `s`.
pub open spec fn count_significant(s: Seq<TrialOutcome>, alpha: i64) -> nat
    decreases s.len(),
{
    if s.len() == 0 {
        0
    } else {
        count_significant(s.drop_last(), alpha) + if is_significant(s.last(), alpha) {
            1nat
        } else {
            0nat
        }
    }
}

/// Number of trials in `s` whose interval covers `true_effect`.
pub open spec fn count_covering(s: Seq<TrialOutcome>, true_effect: i64) -> nat
    decreases s.len(),
{
    if s.len() == 0 {
        0
    } else {
        count_covering(s.drop_last(), true_effect) + if covers(s.last(), true_effect) {
            1nat
        } else {
            0nat
        }
    }
}

/// Running record of a simulation: every trial so far, in trial order, with
/// the number of significant and of covering trials among them.
pub struct TrialTally {
    alpha_level: i64,
    true_effect_size: i64,
    target: usize,
    trials: Vec<TrialOutcome>,
    significant_count: usize,
    coverage_count: usize,
}

/// The counts and order statistics of a finished simulation.
pub struct TallySummary {
    pub significant_count: usize,
    pub total_count: usize,
    pub coverage_count: usize,
    /// Keys of the 2.5th and 97.5th percentiles of the effect sizes.
    pub effect_size_ci: (i64, i64),
    pub histogram: Vec<BinTally>,
}

impl TrialTally {
    pub closed spec fn alpha(self) -> i64 {
        self.alpha_level
    }

    pub closed spec fn true_effect(self) -> i64 {
        self.true_effect_size
    }

    pub closed spec fn target(self) -> nat {
        self.target as nat
    }

    pub closed spec fn trials(self) -> Seq<TrialOutcome> {
        self.trials@
    }

    pub closed spec fn wf(self) -> bool {
        &&& self.trials@.len() <= self.target
        &&& self.significant_count == count_significant(self.trials@, self.alpha_level)
        &&& self.coverage_count == count_covering(self.trials@, self.true_effect_size)
    }

    /// An empty tally for `target` trials judged against `alpha_level` and
    /// the true effect size `true_effect_size` (both order keys).
    pub fn new(alpha_level: i64, true_effect_size: i64, target: usize) -> (r: Self)
        ensures
            r.wf(),
            r.alpha() == alpha_level,
            r.true_effect() == true_effect_size,
            r.target() == target,
            r.trials() == Seq::<TrialOutcome>::empty(),
    {
        TrialTally {
            alpha_level,
            true_effect_size,
            target,
            trials: Vec::new(),
            significant_count: 0,
            coverage_count: 0,
        }
    }

    /// Adds one trial and tells whether it was significant.
    pub fn record(&mut self, t: TrialOutcome) -> (r: bool)
        requires
            old(self).wf(),
            old(self).trials().len() < old(self).target(),
        ensures
            final(self).wf(),
            final(self).target() == old(self).target(),
            final(self).alpha() == old(self).alpha(),
            final(self).true_effect() == old(self).true_effect(),
            final(self).trials() == old(self).trials().push(t),
            r == is_significant(t, old(self).alpha()),
    {
        proof {
            lemma_counts_bounded(self.trials@, self.alpha_level, self.true_effect_size);
        }
        let ghost before = self.trials@;
        self.trials.push(t);
        assert(self.trials@.drop_last() =~= before);
        let significant = t.p_value < self.alpha_level;
        if significant {
            self.significant_count = self.significant_count + 1;
        }
        if t.ci_lower <= self.true_effect_size && self.true_effect_size <= t.ci_upper {
            self.coverage_count = self.coverage_count + 1;
        }
        significant
    }

    /// Validates `params` and, if they pass, opens a tally for their number
    /// of simulations, against their significance level and the key
    /// `true_effect_size` of the true standardized effect.
    pub fn start(params: &ParamKeys, true_effect_size: i64) -> (r: Result<Self, ParamError>)
        ensures
            r.is_err() <==> param_error(*params).is_some(),
            r.is_err() ==> Some(r->Err_0) == param_error(*params),
            r.is_ok() ==> {
                let t = r->Ok_0;
                &&& t.wf()
                &&& t.alpha() == params.alpha_level
                &&& t.true_effect() == true_effect_size
                &&& t.target() == params.num_simulations
                &&& t.trials() == Seq::<TrialOutcome>::empty()
            },
    {
        match validate_params(params) {
            Ok(()) => Ok(TrialTally::new(params.alpha_level, true_effect_size, params.num_simulations)),
            Err(e) => Err(e),
        }
    }

    /// Whether another trial is owed before the run is complete.
    pub fn needs_trial(&self) -> (r: bool)
        ensures
            r == (self.trials().len() < self.target()),
    {
        self.trials.len() < self.target
    }

    /// Counts, effect-size percentiles and p-value histogram (over the bins
    /// whose edges are `bin_edges`) of a complete run.
    pub fn summarize(&self, bin_edges: &Vec<i64>) -> (r: TallySummary)
        requires
            self.wf(),
            self.trials().len() == self.target(),
            self.target() >= 1,
        ensures
            r.total_count == self.target(),
            r.significant_count == count_significant(self.trials(), self.alpha()),
            r.coverage_count == count_covering(self.trials(), self.true_effect()),
            r.significant_count <= r.total_count,
            r.coverage_count <= r.total_count,
            r.effect_size_ci.0 <= r.effect_size_ci.1,
            exists|s: Seq<i64>|
                #![auto]
                s.len() == self.trials().len() && s.to_multiset() == self.trials().map_values(
                    |t: TrialOutcome| t.effect_size,
                ).to_multiset() && sorted(s) && r.effect_size_ci.0 == s[lower_index(s.len() as int)]
                    && r.effect_size_ci.1 == s[upper_index(s.len() as int)],
            r.histogram@.len() == num_bins(bin_edges@),
            forall|i: int|
                0 <= i < r.histogram@.len() ==> #[trigger] r.histogram@[i].count == bin_count(
                    self.trials().map_values(|t: TrialOutcome| t.p_value),
                    bin_edges@,
                    i,
                ),
            forall|i: int|
                0 <= i < r.histogram@.len() ==> #[trigger] r.histogram@[i].significant == (
                bin_edges@[i + 1] <= self.alpha()),
    {
        proof {
            lemma_counts_bounded(self.trials@, self.alpha_level, self.true_effect_size);
        }
        let effects = self.effect_sizes();
        assert(effects@ =~= self.trials@.map_values(|t: TrialOutcome| t.effect_size));
        let effect_size_ci = percentile_bounds(&effects);
        let ps = self.p_values();
        assert(ps@ =~= self.trials@.map_values(|t: TrialOutcome| t.p_value));
        let histogram = build_histogram(&ps, bin_edges, self.alpha_level);
        TallySummary {
            significant_count: self.significant_count,
            total_count: self.trials.len(),
            coverage_count: self.coverage_count,
            effect_size_ci,
            histogram,
        }
    }

    /// Number of trials recorded.
    pub fn total_count(&self) -> (r: usize)
        ensures
            r == self.trials().len(),
    {
        self.trials.len()
    }

    /// Number of significant trials recorded.
    pub fn significant_count(&self) -> (r: usize)
        requires
            self.wf(),
        ensures
            r == count_significant(self.trials(), self.alpha()),
    {
        self.significant_count
    }

    /// Number of recorded trials whose interval covers the true effect.
    pub fn coverage_count(&self) -> (r: usize)
        requires
            self.wf(),
        ensures
            r == count_covering(self.trials(), self.true_effect()),
    {
        self.coverage_count
    }

    /// The p-value keys of the trials, in trial order.
    pub fn p_values(&self) -> (r: Vec<i64>)
        ensures
            r@.len() == self.trials().len(),
            forall|i: int| 0 <= i < r@.len() ==> #[trigger] r@[i] == self.trials()[i].p_value,
    {
        let mut r: Vec<i64> = Vec::new();
        let mut i: usize = 0;
        while i < self.trials.len()
            invariant
                i <= self.trials.len(),
                r@.len() == i,
                forall|k: int| 0 <= k < i ==> #[trigger] r@[k] == self.trials@[k].p_value,
            decreases self.trials.len() - i,
        {
            r.push(self.trials[i].p_value);
            i = i + 1;
        }
        r
    }

    /// The effect-size keys of the trials, in trial order.
    pub fn effect_sizes(&self) -> (r: Vec<i64>)
        ensures
            r@.len() == self.trials().len(),
            forall|i: int| 0 <= i < r@.len() ==> #[trigger] r@[i] == self.trials()[i].effect_size,
    {
        let mut r: Vec<i64> = Vec::new();
        let mut i: usize = 0;
        while i < self.trials.len()
            invariant
                i <= self.trials.len(),
                r@.len() == i,
                forall|k: int| 0 <= k < i ==> #[trigger] r@[k] == self.trials@[k].effect_size,
            decreases self.trials.len() - i,
        {
            r.push(self.trials[i].effect_size);
            i = i + 1;
        }
        r
    }
}

/// Neither the significant trials nor the covering trials can outnumber
/// the trials: the significant fraction and the coverage lie in [0, 1].
pub proof fn lemma_counts_bounded(trials: Seq<TrialOutcome>, alpha: i64, true_effect: i64)
    ensures
        count_significant(trials, alpha) <= trials.len(),
        count_covering(trials, true_effect) <= trials.len(),
    decreases trials.len(),
{
    if trials.len() > 0 {
        lemma_counts_bounded(trials.drop_last(), alpha, true_effect);
    }
}

} // verus!
