//! Discrete core of a Monte Carlo engine for two-sample t-test simulations.
//!
//! Real values (p-values, effect sizes, interval bounds, levels) enter the
//! library as order keys: integers whose order is the IEEE-754 total order
//! of the doubles they stand for (see `order`). On those keys the library
//! validates configurations, decides significance and coverage per trial,
//! counts, selects effect-size percentiles, bins p-values, and frames the
//! comma-separated export.

pub mod csv;
pub mod histogram;
pub mod order;
pub mod percentile;
pub mod tally;
pub mod validate;
