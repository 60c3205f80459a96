//! How the results of several searches are merged.
use vstd::prelude::*;

verus! {

/// How the scores of one result found by several searches are merged.
#[derive(Debug, Clone, Copy, PartialEq, Eq, Structural)]
pub enum FusionStrategy {
    /// The weighted mean.
    WeightedAverage,
    /// The highest score.
    MaxScore,
    /// The lowest score.
    MinScore,
    /// The newest result's score.
    Newest,
}

/// Which of several copies of one result is kept.
#[derive(Debug, Clone, Copy, PartialEq, Eq, Structural)]
pub enum DeduplicateStrategy {
    /// The best scored.
    KeepBestScore,
    /// The newest.
    KeepNewest,
    /// The oldest.
    KeepOldest,
}

} // verus!
