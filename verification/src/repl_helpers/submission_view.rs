//! The submission being edited in the REPL: its lines, and where the cursor
//! stands in them. Drawing it on the terminal is left to the caller, which
//! also moves the terminal's cursor to where the view says.

use vstd::prelude::*;

verus! {

/// The prompt before the first line of a submission.
pub const PROMPT: &'static str = "envious -> ";

/// The prompt before each further line.
pub const NEW_LINE_PROMPT: &'static str = "         | ";

/// How many columns the prompts take.
pub const PROMPT_WIDTH: usize = 11;

/// The texts of the lines of `document`.
pub open spec fn lines_of(document: Seq<String>) -> Seq<Seq<char>> {
    document.map_values(|s: String| s@)
}

/// A submission and the cursor in it.
#[derive(Debug)]
pub struct SubmissionView {
    pub document: Vec<String>,
    pub current_row: usize,
    pub current_line: usize,
    pub current_char: usize,
    pub rendered_lines: usize,
}

impl SubmissionView {
    /// The lines of the submission.
    pub open spec fn lines(&self) -> Seq<Seq<char>> {
        lines_of(self.document@)
    }

    /// The cursor stands on a line of the submission, at most just past its
    /// last character.
    pub open spec fn valid(&self) -> bool {
        &&& self.document@.len() > 0
        &&& self.current_line < self.document@.len()
        &&& self.current_char <= self.lines()[self.current_line as int].len()
    }

    /// A view of `document` whose first line is drawn at row `current_row`,
    /// the cursor at its start.
    pub fn new(document: Vec<String>, current_row: usize) -> (res: SubmissionView)
        ensures
            res.document == document,
            res.current_row == current_row,
            res.current_line == 0,
            res.current_char == 0,
            res.rendered_lines == 0,
    {
        SubmissionView { document, current_row, current_line: 0, current_char: 0, rendered_lines: 0 }
    }

    /// The length of line `i`, or zero past the last line.
    pub fn line_len(&self, i: usize) -> (res: usize)
        ensures
            res == if i < self.document@.len() { self.lines()[i as int].len() } else { 0 },
    {
        if i < self.document.len() {
            self.document[i].as_str().unicode_len()
        } else {
            0
        }
    }

    /// Moves the cursor to line `value`, keeping its column where that line
    /// is long enough and else moving it to the line's end.
    pub fn set_current_line(&mut self, value: usize)
        ensures
            final(self).document == old(self).document,
            final(self).current_row == old(self).current_row,
            final(self).rendered_lines == old(self).rendered_lines,
            final(self).current_line == value,
            final(self).current_char == if old(self).current_line == value {
                old(self).current_char as int
            } else {
                min_int(
                    if value < old(self).document@.len() { old(self).lines()[value as int].len() as int } else { 0 },
                    old(self).current_char as int,
                )
            },
    {
        if self.current_line != value {
            self.current_line = value;
            let len = self.line_len(value);
            self.current_char = if len < self.current_char { len } else { self.current_char };
        }
    }

    /// Moves the cursor to column `value`.
    pub fn set_current_char(&mut self, value: usize)
        ensures
            final(self).document == old(self).document,
            final(self).current_row == old(self).current_row,
            final(self).rendered_lines == old(self).rendered_lines,
            final(self).current_line == old(self).current_line,
            final(self).current_char == value,
    {
        if self.current_char != value {
            self.current_char = value;
        }
    }

    /// The column and row the terminal's cursor belongs at: past the
    /// prompt, on the current line's row.
    pub fn cursor_position(&self) -> (res: (usize, usize))
        requires
            self.current_char + PROMPT_WIDTH <= usize::MAX,
            self.current_row + self.current_line <= usize::MAX,
        ensures
            res.0 == self.current_char + PROMPT_WIDTH,
            res.1 == self.current_row + self.current_line,
    {
        (self.current_char + PROMPT_WIDTH, self.current_row + self.current_line)
    }
}

/// The smaller of `a` and `b`.
pub open spec fn min_int(a: int, b: int) -> int {
    if a < b { a } else { b }
}

} // verus!
