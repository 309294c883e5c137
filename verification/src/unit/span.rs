//! A stretch between two positions of the source map.

use vstd::prelude::*;

use crate::unit::source_map::SourcePos;

verus! {

/// The stretch of the source map from `low` to `high`.
pub struct Span {
    low: SourcePos,
    high: SourcePos,
}

impl Span {
    /// Where the span starts.
    pub closed spec fn low(&self) -> SourcePos {
        self.low
    }

    /// Where the span ends.
    pub closed spec fn high(&self) -> SourcePos {
        self.high
    }

    /// The span from `low` to `high`.
    pub fn new(low: SourcePos, high: SourcePos) -> (res: Self)
        ensures
            res.low() == low,
            res.high() == high,
    {
        Self { low, high }
    }
}

} // verus!
