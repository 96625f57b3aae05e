//! Bootstrap comparison of two numeric samples.
//!
//! Sample values are integers (a caller picks the unit, for instance
//! millionths); quantile levels are exact fractions and every statistic is an
//! exact rational, so all comparisons between statistics are total and exact.
pub mod estimate;
pub mod estimator;
pub mod quantile;
pub mod resample;
pub mod simulate;

pub use estimate::{is_sorted, Error, Estimate, Fraction};
pub use quantile::quantile;
pub use estimator::{mean, standard_estimators, summarize, Estimator, Statistic};
pub use resample::{resample, sort_sample};
pub use simulate::{simulate, tally_replicate, EstimatorResult, Tally};
