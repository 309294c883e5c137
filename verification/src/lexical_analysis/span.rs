//! Spans counted in lines and columns.

use vstd::prelude::*;

verus! {

/// The stretch from line `start_line`, column `start_column` to line
/// `end_line`, column `end_column`.
#[derive(Debug, Clone, Copy, PartialEq, Eq, Structural)]
pub struct Span {
    pub start_line: usize,
    pub start_column: usize,
    pub end_line: usize,
    pub end_column: usize,
}

impl Span {
    /// The span from (`start_line`, `start_column`) to (`end_line`,
    /// `end_column`).
    pub fn new(start_line: usize, start_column: usize, end_line: usize, end_column: usize) -> (res: Self)
        ensures
            res == (Span { start_line, start_column, end_line, end_column }),
    {
        Span { start_line, start_column, end_line, end_column }
    }
}

} // verus!
