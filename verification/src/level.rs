//! Severities of records and the thresholds they are held against.

use vstd::prelude::*;

verus! {

/// Severity of one record. `Error` is the most serious and the least verbose,
/// `Trace` the least serious and the most verbose.
#[derive(Clone, Copy, Debug, PartialEq, Eq, Structural, PartialOrd, Ord, Hash)]
pub enum Level {
    Error,
    Warn,
    Info,
    Debug,
    Trace,
}

/// A threshold on severities: it admits every level that is no more verbose
/// than itself, and `Off` admits none.
#[derive(Clone, Copy, Debug, PartialEq, Eq, Structural, PartialOrd, Ord, Hash)]
pub enum LevelFilter {
    Off,
    Error,
    Warn,
    Info,
    Debug,
    Trace,
}

impl Level {
    /// Verbosity of the level: 1 for `Error` up to 5 for `Trace`.
    pub open spec fn spec_rank(self) -> u8 {
        match self {
            Level::Error => 1,
            Level::Warn => 2,
            Level::Info => 3,
            Level::Debug => 4,
            Level::Trace => 5,
        }
    }

    #[verifier::when_used_as_spec(spec_rank)]
    pub fn rank(self) -> (r: u8)
        ensures
            r == self.spec_rank(),
            1 <= r <= 5,
    {
        match self {
            Level::Error => 1,
            Level::Warn => 2,
            Level::Info => 3,
            Level::Debug => 4,
            Level::Trace => 5,
        }
    }
}

impl LevelFilter {
    /// Verbosity of the threshold: 0 for `Off`, then as for the level of the
    /// same name.
    pub open spec fn spec_rank(self) -> u8 {
        match self {
            LevelFilter::Off => 0,
            LevelFilter::Error => 1,
            LevelFilter::Warn => 2,
            LevelFilter::Info => 3,
            LevelFilter::Debug => 4,
            LevelFilter::Trace => 5,
        }
    }

    #[verifier::when_used_as_spec(spec_rank)]
    pub fn rank(self) -> (r: u8)
        ensures
            r == self.spec_rank(),
            r <= 5,
    {
        match self {
            LevelFilter::Off => 0,
            LevelFilter::Error => 1,
            LevelFilter::Warn => 2,
            LevelFilter::Info => 3,
            LevelFilter::Debug => 4,
            LevelFilter::Trace => 5,
        }
    }

    /// Whether a record of this level gets through the threshold.
    pub open spec fn spec_allows(self, level: Level) -> bool {
        level.rank() <= self.rank()
    }

    #[verifier::when_used_as_spec(spec_allows)]
    pub fn allows(self, level: Level) -> (r: bool)
        ensures
            r == self.spec_allows(level),
    {
        level.rank() <= self.rank()
    }

    /// The more verbose of two thresholds.
    pub open spec fn spec_max(self, other: LevelFilter) -> LevelFilter {
        if self.rank() >= other.rank() {
            self
        } else {
            other
        }
    }

    #[verifier::when_used_as_spec(spec_max)]
    pub fn max(self, other: LevelFilter) -> (r: LevelFilter)
        ensures
            r == self.spec_max(other),
    {
        if self.rank() >= other.rank() {
            self
        } else {
            other
        }
    }
}

/// Two thresholds of one rank are the same threshold, and so for levels.
pub proof fn lemma_rank_injective(a: LevelFilter, b: LevelFilter, x: Level, y: Level)
    ensures
        a.rank() == b.rank() ==> a == b,
        x.rank() == y.rank() ==> x == y,
{
}

} // verus!
