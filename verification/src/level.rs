//! Verbosity levels.

use vstd::prelude::*;

verus! {

/// The most verbose level that a sink lets through, from nothing to everything.
#[derive(Clone, Copy, Debug, PartialEq, Eq, Structural)]
pub enum LevelFilter {
    Off,
    Error,
    Warn,
    Info,
    Debug,
    Trace,
}

impl LevelFilter {
    /// How verbose the level is.
    pub open spec fn rank(self) -> int {
        match self {
            LevelFilter::Off => 0,
            LevelFilter::Error => 1,
            LevelFilter::Warn => 2,
            LevelFilter::Info => 3,
            LevelFilter::Debug => 4,
            LevelFilter::Trace => 5,
        }
    }

    /// The rank of the level as a number.
    pub fn verbosity(self) -> (r: u8)
        ensures
            r == self.rank(),
    {
        match self {
            LevelFilter::Off => 0,
            LevelFilter::Error => 1,
            LevelFilter::Warn => 2,
            LevelFilter::Info => 3,
            LevelFilter::Debug => 4,
            LevelFilter::Trace => 5,
        }
    }

    /// The more verbose of two levels.
    pub fn most_verbose(self, other: LevelFilter) -> (r: LevelFilter)
        ensures
            r == self || r == other,
            r.rank() >= self.rank(),
            r.rank() >= other.rank(),
    {
        if other.verbosity() >= self.verbosity() {
            other
        } else {
            self
        }
    }
}

/// Two levels of one rank are the same level.
pub proof fn law_rank_is_injective(a: LevelFilter, b: LevelFilter)
    requires
        a.rank() == b.rank(),
    ensures
        a == b,
{
}

} // verus!
