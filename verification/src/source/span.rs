//! Spans of a source and values tagged with the span they came from.

use vstd::prelude::*;

use crate::source::source::SourceId;

verus! {

/// A position in a source (counted in characters by the lexers).
pub type SourcePos = usize;

/// The stretch of source `source_id` from `start_pos` (inclusive) to
/// `end_pos` (exclusive).
#[derive(Debug, Clone, Copy, PartialEq, Eq, Structural)]
pub struct Span {
    pub source_id: SourceId,
    pub start_pos: SourcePos,
    pub end_pos: SourcePos,
}

impl Span {
    /// The span of source `source_id` from `start_pos` to `end_pos`.
    pub fn new(source_id: SourceId, start_pos: SourcePos, end_pos: SourcePos) -> (res: Self)
        ensures
            res == (Span { source_id, start_pos, end_pos }),
    {
        Self { source_id, start_pos, end_pos }
    }

    /// The span as a half-open range of positions (`Range::from`).
    pub fn range(self) -> (res: (usize, usize))
        ensures
            res == (self.start_pos, self.end_pos),
    {
        (self.start_pos, self.end_pos)
    }
}

/// A value together with the span of source it was read from.
#[derive(Debug, Clone, Copy)]
pub struct Spanned<T> {
    pub span: Span,
    pub node: T,
}

impl<T> Spanned<T> {
    /// Tags `node` with `span`.
    pub fn new(span: Span, node: T) -> (res: Self)
        ensures
            res.span == span,
            res.node == node,
    {
        Self { span, node }
    }
}

} // verus!
