//! Positions in a source and the snippets that run between two of them.

use vstd::prelude::*;

use crate::source::source::SourceId;

verus! {

/// A byte position in a source.
#[derive(Debug, Clone, Copy, PartialEq, Eq, Structural, PartialOrd, Ord)]
pub struct SourcePos(pub usize);

impl SourcePos {
    /// The position `rhs` places further on.
    pub fn add(self, rhs: usize) -> (res: SourcePos)
        requires
            self.0 + rhs <= usize::MAX,
        ensures
            res.0 == self.0 + rhs,
    {
        SourcePos(self.0 + rhs)
    }

    /// The sum of two positions.
    pub fn add_pos(self, rhs: SourcePos) -> (res: SourcePos)
        requires
            self.0 + rhs.0 <= usize::MAX,
        ensures
            res.0 == self.0 + rhs.0,
    {
        SourcePos(self.0 + rhs.0)
    }

    /// The distance from `rhs` up to this position.
    pub fn sub(self, rhs: SourcePos) -> (res: SourcePos)
        requires
            rhs.0 <= self.0,
        ensures
            res.0 == self.0 - rhs.0,
    {
        SourcePos(self.0 - rhs.0)
    }
}

/// The stretch of a source from `start` to `end`.
#[derive(Debug, Clone, Copy, PartialEq, Eq, Structural)]
pub struct Snippet {
    pub source_id: SourceId,
    pub start: SourcePos,
    pub end: SourcePos,
}

impl Snippet {
    /// The snippet of source `source_id` from `start` to `end`.
    pub fn new(source_id: SourceId, start: SourcePos, end: SourcePos) -> (res: Self)
        ensures
            res == (Snippet { source_id, start, end }),
    {
        Self { source_id, start, end }
    }

    /// The same snippet, starting at `previous_position` instead.
    pub fn extend_back(self, previous_position: SourcePos) -> (res: Self)
        ensures
            res == (Snippet { start: previous_position, ..self }),
    {
        Self { start: previous_position, ..self }
    }

    /// The same snippet, ending at `extended_position` instead.
    pub fn extend(self, extended_position: SourcePos) -> (res: Self)
        ensures
            res == (Snippet { end: extended_position, ..self }),
    {
        Self { end: extended_position, ..self }
    }
}

/// Moving the start of a snippet and moving its end do not interfere: doing
/// both, in either order, gives the snippet from the new start to the new end
/// in the same source.
pub proof fn lemma_extend_commutes(s: Snippet, start: SourcePos, end: SourcePos)
    ensures
        (Snippet { end, ..(Snippet { start, ..s }) }) == (Snippet { start, ..(Snippet { end, ..s }) }),
        (Snippet { end, ..(Snippet { start, ..s }) }) == (Snippet { source_id: s.source_id, start, end }),
{
}

} // verus!
