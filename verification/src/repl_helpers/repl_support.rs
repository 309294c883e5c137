//! What each key does to the submission being edited, and the history of
//! submissions that Page Up and Page Down bring back. Each handler says
//! whether the submission is to be drawn again; the caller draws it and
//! moves the terminal's cursor to where the view says.

use vstd::prelude::*;

use crate::repl_helpers::submission_view::{lines_of, min_int, SubmissionView};
use crate::repl_helpers::text_lines::{join_lines, join_lines_of, lemma_split_nonempty, split_lines, split_lines_of};
use crate::text::{push_char, push_str};

verus! {

/// A key, as far as the editor tells keys apart.
#[derive(Debug, Clone, Copy, PartialEq, Eq, Structural)]
pub enum KeyCode {
    Esc,
    Enter,
    Left,
    Right,
    Up,
    Down,
    Backspace,
    Delete,
    Home,
    End,
    Tab,
    PageUp,
    PageDown,
    Char(char),
    Other,
}

/// The modifier keys held with a key (`Plain` when none is).
#[derive(Debug, Clone, Copy, PartialEq, Eq, Structural)]
pub enum Modifiers {
    Plain,
    Shift,
    Alt,
    Other,
}

/// A key pressed with its modifiers.
#[derive(Debug, Clone, Copy, PartialEq, Eq, Structural)]
pub struct KeyPress {
    pub code: KeyCode,
    pub modifiers: Modifiers,
}

/// The first `n` characters of `s` followed by the rest after `skip` more.
pub open spec fn cut(s: Seq<char>, n: int, skip: int) -> Seq<char> {
    s.subrange(0, n) + s.subrange(n + skip, s.len() as int)
}

/// `s` with `t` put in before position `n`.
pub open spec fn put(s: Seq<char>, n: int, t: Seq<char>) -> Seq<char> {
    s.subrange(0, n) + t + s.subrange(n, s.len() as int)
}

/// `k` spaces.
pub open spec fn spaces(k: nat) -> Seq<char> {
    Seq::new(k, |i: int| ' ')
}

/// The editor's state: the lines of the submission, the cursor's line and
/// column, the history and where it points, and whether the submission is
/// finished.
pub struct EditState {
    pub lines: Seq<Seq<char>>,
    pub line: int,
    pub ch: int,
    pub history: Seq<Seq<char>>,
    pub index: int,
    pub done: bool,
}

/// The cursor moved to line `value`: the column stays where that line is
/// long enough, else goes to its end.
pub open spec fn to_line(s: EditState, value: int) -> EditState {
    if s.line == value {
        s
    } else {
        EditState {
            line: value,
            ch: min_int(if 0 <= value < s.lines.len() { s.lines[value].len() as int } else { 0 }, s.ch),
            ..s
        }
    }
}

/// Escape: the submission emptied, the cursor at its start.
pub open spec fn escape_edit(s: EditState) -> (EditState, bool) {
    (EditState { lines: seq![Seq::empty()], line: 0, ch: 0, ..s }, true)
}

/// Enter: the line split at the cursor, the cursor at the start of the new
/// line.
pub open spec fn enter_edit(s: EditState) -> (EditState, bool) {
    let l = s.lines[s.line];
    (
        EditState {
            lines: s.lines.update(s.line, l.subrange(0, s.ch)).insert(s.line + 1, l.subrange(s.ch, l.len() as int)),
            line: s.line + 1,
            ch: 0,
            ..s
        },
        true,
    )
}

/// Left: one column back, unless at the start of the line.
pub open spec fn left_edit(s: EditState) -> (EditState, bool) {
    (if s.ch > 0 { EditState { ch: s.ch - 1, ..s } } else { s }, false)
}

/// Right: one column on, unless at the end of the line.
pub open spec fn right_edit(s: EditState) -> (EditState, bool) {
    let len = s.lines[s.line].len();
    (if len > 0 && s.ch <= len - 1 { EditState { ch: s.ch + 1, ..s } } else { s }, false)
}

/// Up: one line back, unless on the first line.
pub open spec fn up_edit(s: EditState) -> (EditState, bool) {
    (if s.line > 0 { to_line(s, s.line - 1) } else { s }, false)
}

/// Down: one line on, unless on the last line.
pub open spec fn down_edit(s: EditState) -> (EditState, bool) {
    (if s.line < s.lines.len() - 1 { to_line(s, s.line + 1) } else { s }, false)
}

/// Backspace: the character before the cursor taken out; at the start of a
/// line, the line joined to the one before, the cursor at the end of the
/// joined line.
pub open spec fn backspace_edit(s: EditState) -> (EditState, bool) {
    if s.ch == 0 {
        if s.line == 0 {
            (s, false)
        } else {
            let joined = s.lines[s.line - 1] + s.lines[s.line];
            (
                EditState {
                    lines: s.lines.remove(s.line).update(s.line - 1, joined),
                    line: s.line - 1,
                    ch: joined.len() as int,
                    ..s
                },
                true,
            )
        }
    } else {
        (EditState { lines: s.lines.update(s.line, cut(s.lines[s.line], s.ch - 1, 1)), ch: s.ch - 1, ..s }, true)
    }
}

/// Delete: the character at the cursor taken out (without drawing again);
/// at the end of a line, the next line joined to it.
pub open spec fn delete_edit(s: EditState) -> (EditState, bool) {
    let l = s.lines[s.line];
    if s.ch >= l.len() {
        if s.line == s.lines.len() - 1 {
            (s, false)
        } else {
            (
                EditState { lines: s.lines.update(s.line, l + s.lines[s.line + 1]).remove(s.line + 1), ..s },
                true,
            )
        }
    } else {
        (EditState { lines: s.lines.update(s.line, cut(l, s.ch, 1)), ..s }, false)
    }
}

/// Home: the start of the line.
pub open spec fn home_edit(s: EditState) -> (EditState, bool) {
    (EditState { ch: 0, ..s }, false)
}

/// End: the end of the line.
pub open spec fn end_edit(s: EditState) -> (EditState, bool) {
    (EditState { ch: s.lines[s.line].len() as int, ..s }, false)
}

/// Tab: spaces up to the next multiple of four columns (without drawing
/// again).
pub open spec fn tab_edit(s: EditState) -> (EditState, bool) {
    let k = (4 - s.ch % 4) as nat;
    (EditState { lines: s.lines.update(s.line, put(s.lines[s.line], s.ch, spaces(k))), ch: s.ch + k, ..s }, false)
}

/// Typing `c`: the character put in at the cursor, the cursor after it.
pub open spec fn typing_edit(s: EditState, c: char) -> (EditState, bool) {
    (EditState { lines: s.lines.update(s.line, put(s.lines[s.line], s.ch, seq![c])), ch: s.ch + 1, ..s }, true)
}

/// The submission the history points at brought back, the cursor at its
/// end; nothing when the history is empty.
pub open spec fn recall(s: EditState) -> (EditState, bool) {
    if s.history.len() == 0 {
        (s, false)
    } else {
        let ls = split_lines(s.history[s.index]);
        (EditState { lines: ls, line: ls.len() - 1, ch: ls.last().len() as int, ..s }, true)
    }
}

/// Page Up: the history one submission back (from the oldest, round to the
/// newest), brought back.
pub open spec fn page_up_edit(s: EditState) -> (EditState, bool) {
    let index = if s.index == 0 {
        (if s.history.len() > 1 { s.history.len() as int } else { 1int }) - 1
    } else {
        s.index - 1
    };
    recall(EditState { index, ..s })
}

/// Page Down: the history one submission on (from the newest, round to the
/// oldest), brought back.
pub open spec fn page_down_edit(s: EditState) -> (EditState, bool) {
    let index = if s.index == s.history.len() - 1 { 0 } else { s.index + 1 };
    recall(EditState { index, ..s })
}

/// What the key `key` does: plain keys edit or move; a character with
/// Shift is typed; Alt and Enter finish the submission; anything else does
/// nothing.
pub open spec fn key_edit(s: EditState, key: KeyPress) -> (EditState, bool) {
    match key.modifiers {
        Modifiers::Plain => match key.code {
            KeyCode::Esc => escape_edit(s),
            KeyCode::Enter => enter_edit(s),
            KeyCode::Left => left_edit(s),
            KeyCode::Right => right_edit(s),
            KeyCode::Up => up_edit(s),
            KeyCode::Down => down_edit(s),
            KeyCode::Backspace => backspace_edit(s),
            KeyCode::Delete => delete_edit(s),
            KeyCode::Home => home_edit(s),
            KeyCode::End => end_edit(s),
            KeyCode::Tab => tab_edit(s),
            KeyCode::PageUp => page_up_edit(s),
            KeyCode::PageDown => page_down_edit(s),
            KeyCode::Char(c) => typing_edit(s, c),
            KeyCode::Other => (s, false),
        },
        Modifiers::Shift => match key.code {
            KeyCode::Char(c) => typing_edit(s, c),
            _ => (s, false),
        },
        Modifiers::Alt => match key.code {
            KeyCode::Enter => (EditState { done: true, ..s }, false),
            _ => (s, false),
        },
        Modifiers::Other => (s, false),
    }
}

/// The editor's state.
pub open spec fn edit_state(support: ReplSupport, view: SubmissionView) -> EditState {
    EditState {
        lines: view.lines(),
        line: view.current_line as int,
        ch: view.current_char as int,
        history: support.history(),
        index: support.history_index(),
        done: support.is_done(),
    }
}

/// The keys the editor can take in state `s` without a length or a column
/// outgrowing a machine word, nor Page Down meeting an empty history.
pub open spec fn key_allowed(s: EditState, key: KeyPress) -> bool {
    &&& s.lines[s.line].len() + 4 < usize::MAX
    &&& (key.code == KeyCode::PageDown && key.modifiers == Modifiers::Plain ==> s.history.len() > 0)
}

/// The state is one the editor can be in: the cursor on a line, at most
/// just past its end.
pub open spec fn edit_valid(s: EditState) -> bool {
    &&& s.lines.len() > 0
    &&& 0 <= s.line < s.lines.len()
    &&& 0 <= s.ch <= s.lines[s.line].len()
}

/// Typing a character and then pressing Backspace leaves the submission and
/// the cursor as they were.
pub proof fn lemma_typing_then_backspace(s: EditState, c: char)
    requires
        edit_valid(s),
    ensures
        backspace_edit(typing_edit(s, c).0).0 == s,
{
    let t = typing_edit(s, c).0;
    let l = s.lines[s.line];
    let typed = put(l, s.ch, seq![c]);
    assert(t.lines[t.line] == typed);
    assert(cut(typed, s.ch, 1) =~= l);
    assert(t.lines.update(t.line, cut(typed, s.ch, 1)) =~= s.lines);
}

/// Pressing Enter and then Backspace leaves the lines of the submission as
/// they were (the cursor goes to the end of the joined line).
pub proof fn lemma_enter_then_backspace(s: EditState)
    requires
        edit_valid(s),
    ensures
        backspace_edit(enter_edit(s).0).0.lines == s.lines,
        backspace_edit(enter_edit(s).0).0.line == s.line,
{
    let e = enter_edit(s).0;
    let l = s.lines[s.line];
    assert(e.lines[s.line] == l.subrange(0, s.ch));
    assert(e.lines[s.line + 1] == l.subrange(s.ch, l.len() as int));
    assert(l.subrange(0, s.ch) + l.subrange(s.ch, l.len() as int) =~= l);
    assert(e.lines.remove(s.line + 1).update(s.line, l) =~= s.lines);
}

/// Bringing back a submission from the history gives lines that join back
/// into that submission, the cursor at its end.
pub proof fn lemma_recall_restores(s: EditState)
    requires
        s.history.len() > 0,
        0 <= s.index < s.history.len(),
    ensures
        join_lines(recall(s).0.lines) == s.history[s.index],
        edit_valid(recall(s).0),
{
    crate::repl_helpers::text_lines::lemma_join_split(s.history[s.index]);
    lemma_split_nonempty(s.history[s.index]);
}

/// The text of `s` with the `skip` characters from `n` on taken out.
fn cut_text(s: &str, n: usize, skip: usize) -> (res: String)
    requires
        n + skip <= s@.len(),
    ensures
        res@ == cut(s@, n as int, skip as int),
{
    let len = s.unicode_len();
    let mut res = s.substring_char(0, n).to_owned();
    push_str(&mut res, s.substring_char(n + skip, len));
    res
}

/// The text of `s` with `t` put in before position `n`.
fn put_text(s: &str, n: usize, t: &str) -> (res: String)
    requires
        n <= s@.len(),
    ensures
        res@ == put(s@, n as int, t@),
{
    let mut res = s.substring_char(0, n).to_owned();
    push_str(&mut res, t);
    push_str(&mut res, s.substring_char(n, s.unicode_len()));
    res
}

/// Edits submissions and keeps those made.
#[derive(Debug)]
pub struct ReplSupport {
    submission_history: Vec<String>,
    submission_history_index: usize,
    done: bool,
}

impl ReplSupport {
    /// The history points at one of its submissions, or at zero when empty.
    #[verifier::type_invariant]
    spec fn inv(self) -> bool {
        if self.submission_history@.len() == 0 {
            self.submission_history_index == 0
        } else {
            self.submission_history_index < self.submission_history@.len()
        }
    }

    /// The submissions made, oldest first.
    pub closed spec fn history(&self) -> Seq<Seq<char>> {
        lines_of(self.submission_history@)
    }

    /// The submission Page Up and Page Down bring back.
    pub closed spec fn history_index(&self) -> int {
        self.submission_history_index as int
    }

    /// Whether the submission being edited is finished.
    pub closed spec fn is_done(&self) -> bool {
        self.done
    }

    /// Takes the parts out, leaving an editor with no history behind.
    fn take_parts(&mut self) -> (res: (Vec<String>, usize, bool))
        ensures
            lines_of(res.0@) == old(self).history(),
            res.1 == old(self).history_index(),
            res.2 == old(self).is_done(),
            res.0@.len() == 0 ==> res.1 == 0,
            res.0@.len() > 0 ==> res.1 < res.0@.len(),
    {
        let mut current = ReplSupport::new();
        std::mem::swap(self, &mut current);
        proof {
            use_type_invariant(&current);
        }
        let ReplSupport { submission_history, submission_history_index, done } = current;
        (submission_history, submission_history_index, done)
    }

    /// An editor with no history.
    pub fn new() -> (res: ReplSupport)
        ensures
            res.history() == Seq::<Seq<char>>::empty(),
            res.history_index() == 0,
            !res.is_done(),
    {
        ReplSupport { submission_history: Vec::new(), submission_history_index: 0, done: false }
    }

    /// Starts editing a new submission.
    pub fn begin_submission(&mut self)
        ensures
            !final(self).is_done(),
            final(self).history() == old(self).history(),
            final(self).history_index() == old(self).history_index(),
    {
        let (history, index, _) = self.take_parts();
        *self = ReplSupport { submission_history: history, submission_history_index: index, done: false };
    }

    /// The number of submissions kept (Page Down needs one at least).
    pub fn history_len(&self) -> (res: usize)
        ensures
            res == self.history().len(),
    {
        self.submission_history.len()
    }

    /// Whether the submission being edited is finished.
    pub fn done(&self) -> (res: bool)
        ensures
            res == self.is_done(),
    {
        self.done
    }

    /// What the key `event` does to the submission in `view`; whether the
    /// submission is to be drawn again.
    pub fn handle_key(&mut self, view: &mut SubmissionView, event: KeyPress) -> (res: bool)
        requires
            old(view).valid(),
            key_allowed(edit_state(*old(self), *old(view)), event),
        ensures
            (edit_state(*final(self), *final(view)), res) == key_edit(edit_state(*old(self), *old(view)), event),
            final(view).valid(),
            final(view).current_row == old(view).current_row,
            final(view).rendered_lines == old(view).rendered_lines,
    {
        match event.modifiers {
            Modifiers::Plain => match event.code {
                KeyCode::Esc => self.handle_escape(view),
                KeyCode::Enter => self.handle_enter(view),
                KeyCode::Left => self.handle_left_arrow(view),
                KeyCode::Right => self.handle_right_arrow(view),
                KeyCode::Up => self.handle_up_arrow(view),
                KeyCode::Down => self.handle_down_arrow(view),
                KeyCode::Backspace => self.handle_backspace(view),
                KeyCode::Delete => self.handle_delete(view),
                KeyCode::Home => self.handle_home(view),
                KeyCode::End => self.handle_end(view),
                KeyCode::Tab => self.handle_tab(view),
                KeyCode::PageUp => self.handle_page_up(view),
                KeyCode::PageDown => self.handle_page_down(view),
                KeyCode::Char(c) => self.handle_typing(view, c),
                KeyCode::Other => false,
            },
            Modifiers::Shift => match event.code {
                KeyCode::Char(c) => self.handle_typing(view, c),
                _ => false,
            },
            Modifiers::Alt => match event.code {
                KeyCode::Enter => {
                    let (history, index, _) = self.take_parts();
                    *self = ReplSupport { submission_history: history, submission_history_index: index, done: true };
                    false
                },
                _ => false,
            },
            Modifiers::Other => false,
        }
    }

    fn handle_escape(&self, view: &mut SubmissionView) -> (res: bool)
        requires
            old(view).valid(),
        ensures
            (edit_state(*self, *final(view)), res) == escape_edit(edit_state(*self, *old(view))),
            final(view).valid(),
            final(view).current_row == old(view).current_row,
            final(view).rendered_lines == old(view).rendered_lines,
    {
        view.document.clear();
        view.document.push(String::new());
        view.set_current_line(0);
        view.set_current_char(0);
        proof {
            assert(view.lines() =~= seq![Seq::<char>::empty()]);
        }
        true
    }

    fn handle_enter(&self, view: &mut SubmissionView) -> (res: bool)
        requires
            old(view).valid(),
        ensures
            (edit_state(*self, *final(view)), res) == enter_edit(edit_state(*self, *old(view))),
            final(view).valid(),
            final(view).current_row == old(view).current_row,
            final(view).rendered_lines == old(view).rendered_lines,
    {
        let ghost ls = view.lines();
        let line_index = view.current_line;
        let ch = view.current_char;
        let _count = view.document.len();
        let len = view.document[line_index].as_str().unicode_len();
        let remainder = view.document[line_index].as_str().substring_char(ch, len).to_owned();
        let head = view.document[line_index].as_str().substring_char(0, ch).to_owned();
        let ghost l = ls[line_index as int];
        view.document.set(line_index, head);
        view.document.insert(line_index + 1, remainder);
        proof {
            assert(view.lines() =~= ls.update(line_index as int, l.subrange(0, ch as int)).insert(
                line_index + 1,
                l.subrange(ch as int, l.len() as int),
            ));
        }
        view.set_current_char(0);
        view.set_current_line(line_index + 1);
        true
    }

    fn handle_left_arrow(&self, view: &mut SubmissionView) -> (res: bool)
        requires
            old(view).valid(),
        ensures
            (edit_state(*self, *final(view)), res) == left_edit(edit_state(*self, *old(view))),
            final(view).valid(),
            final(view).current_row == old(view).current_row,
            final(view).rendered_lines == old(view).rendered_lines,
    {
        if view.current_char > 0 {
            view.set_current_char(view.current_char - 1);
        }
        false
    }

    fn handle_right_arrow(&self, view: &mut SubmissionView) -> (res: bool)
        requires
            old(view).valid(),
        ensures
            (edit_state(*self, *final(view)), res) == right_edit(edit_state(*self, *old(view))),
            final(view).valid(),
            final(view).current_row == old(view).current_row,
            final(view).rendered_lines == old(view).rendered_lines,
    {
        let len = view.line_len(view.current_line);
        if len > 0 && view.current_char <= len - 1 {
            view.set_current_char(view.current_char + 1);
        }
        false
    }

    fn handle_up_arrow(&self, view: &mut SubmissionView) -> (res: bool)
        requires
            old(view).valid(),
        ensures
            (edit_state(*self, *final(view)), res) == up_edit(edit_state(*self, *old(view))),
            final(view).valid(),
            final(view).current_row == old(view).current_row,
            final(view).rendered_lines == old(view).rendered_lines,
    {
        if view.current_line > 0 {
            view.set_current_line(view.current_line - 1);
        }
        false
    }

    fn handle_down_arrow(&self, view: &mut SubmissionView) -> (res: bool)
        requires
            old(view).valid(),
        ensures
            (edit_state(*self, *final(view)), res) == down_edit(edit_state(*self, *old(view))),
            final(view).valid(),
            final(view).current_row == old(view).current_row,
            final(view).rendered_lines == old(view).rendered_lines,
    {
        let len = view.document.len();
        if len > 0 && view.current_line < len - 1 {
            view.set_current_line(view.current_line + 1);
        }
        false
    }

    fn handle_backspace(&self, view: &mut SubmissionView) -> (res: bool)
        requires
            old(view).valid(),
        ensures
            (edit_state(*self, *final(view)), res) == backspace_edit(edit_state(*self, *old(view))),
            final(view).valid(),
            final(view).current_row == old(view).current_row,
            final(view).rendered_lines == old(view).rendered_lines,
    {
        let ghost ls = view.lines();
        let start = view.current_char;
        let line_index = view.current_line;
        if start == 0 {
            if line_index == 0 {
                false
            } else {
                let current_line = view.document[line_index].clone();
                let mut previous_line = view.document[line_index - 1].clone();
                view.document.remove(line_index);
                view.set_current_line(line_index - 1);
                push_str(&mut previous_line, current_line.as_str());
                let len = previous_line.as_str().unicode_len();
                view.document.set(line_index - 1, previous_line);
                proof {
                    assert(view.lines() =~= ls.remove(line_index as int).update(
                        line_index - 1,
                        ls[line_index - 1] + ls[line_index as int],
                    ));
                }
                view.set_current_char(len);
                true
            }
        } else {
            let text = cut_text(view.document[line_index].as_str(), start - 1, 1);
            view.document.set(line_index, text);
            proof {
                assert(view.lines() =~= ls.update(line_index as int, cut(ls[line_index as int], start - 1, 1)));
            }
            view.set_current_char(start - 1);
            true
        }
    }

    fn handle_delete(&self, view: &mut SubmissionView) -> (res: bool)
        requires
            old(view).valid(),
        ensures
            (edit_state(*self, *final(view)), res) == delete_edit(edit_state(*self, *old(view))),
            final(view).valid(),
            final(view).current_row == old(view).current_row,
            final(view).rendered_lines == old(view).rendered_lines,
    {
        let ghost ls = view.lines();
        let line_index = view.current_line;
        let start = view.current_char;
        let len = view.line_len(line_index);
        if start >= len {
            if line_index == view.document.len() - 1 {
                false
            } else {
                let next_line = view.document[line_index + 1].clone();
                let mut joined = view.document[line_index].clone();
                push_str(&mut joined, next_line.as_str());
                view.document.set(line_index, joined);
                view.document.remove(line_index + 1);
                proof {
                    assert(view.lines() =~= ls.update(line_index as int, ls[line_index as int] + ls[line_index + 1]).remove(
                        line_index + 1,
                    ));
                }
                true
            }
        } else {
            let text = cut_text(view.document[line_index].as_str(), start, 1);
            view.document.set(line_index, text);
            proof {
                assert(view.lines() =~= ls.update(line_index as int, cut(ls[line_index as int], start as int, 1)));
            }
            false
        }
    }

    fn handle_home(&self, view: &mut SubmissionView) -> (res: bool)
        requires
            old(view).valid(),
        ensures
            (edit_state(*self, *final(view)), res) == home_edit(edit_state(*self, *old(view))),
            final(view).valid(),
            final(view).current_row == old(view).current_row,
            final(view).rendered_lines == old(view).rendered_lines,
    {
        view.set_current_char(0);
        false
    }

    fn handle_end(&self, view: &mut SubmissionView) -> (res: bool)
        requires
            old(view).valid(),
        ensures
            (edit_state(*self, *final(view)), res) == end_edit(edit_state(*self, *old(view))),
            final(view).valid(),
            final(view).current_row == old(view).current_row,
            final(view).rendered_lines == old(view).rendered_lines,
    {
        let len = view.line_len(view.current_line);
        view.set_current_char(len);
        false
    }

    fn handle_tab(&self, view: &mut SubmissionView) -> (res: bool)
        requires
            old(view).valid(),
            old(view).lines()[old(view).current_line as int].len() + 4 < usize::MAX,
        ensures
            (edit_state(*self, *final(view)), res) == tab_edit(edit_state(*self, *old(view))),
            final(view).valid(),
            final(view).current_row == old(view).current_row,
            final(view).rendered_lines == old(view).rendered_lines,
    {
        let ghost ls = view.lines();
        let tab_width: usize = 4;
        let start = view.current_char;
        let remaining_spaces = tab_width - start % tab_width;
        let mut padding = String::new();
        let mut k: usize = 0;
        while k < remaining_spaces
            invariant
                k <= remaining_spaces,
                padding@ == spaces(k as nat),
            decreases remaining_spaces - k,
        {
            push_char(&mut padding, ' ');
            proof {
                assert(padding@ =~= spaces((k + 1) as nat));
            }
            k = k + 1;
        }
        let line_index = view.current_line;
        let text = put_text(view.document[line_index].as_str(), start, padding.as_str());
        view.document.set(line_index, text);
        proof {
            assert(view.lines() =~= ls.update(line_index as int, put(ls[line_index as int], start as int, spaces(remaining_spaces as nat))));
        }
        view.set_current_char(start + remaining_spaces);
        false
    }

    fn handle_typing(&self, view: &mut SubmissionView, text: char) -> (res: bool)
        requires
            old(view).valid(),
            old(view).lines()[old(view).current_line as int].len() + 4 < usize::MAX,
        ensures
            (edit_state(*self, *final(view)), res) == typing_edit(edit_state(*self, *old(view)), text),
            final(view).valid(),
            final(view).current_row == old(view).current_row,
            final(view).rendered_lines == old(view).rendered_lines,
    {
        let ghost ls = view.lines();
        let line_index = view.current_line;
        let start = view.current_char;
        let mut one = String::new();
        push_char(&mut one, text);
        let line = put_text(view.document[line_index].as_str(), start, one.as_str());
        view.document.set(line_index, line);
        proof {
            assert(one@ =~= seq![text]);
            assert(view.lines() =~= ls.update(line_index as int, put(ls[line_index as int], start as int, seq![text])));
        }
        view.set_current_char(start + 1);
        true
    }

    fn handle_page_up(&mut self, view: &mut SubmissionView) -> (res: bool)
        requires
            old(view).valid(),
        ensures
            (edit_state(*final(self), *final(view)), res) == page_up_edit(edit_state(*old(self), *old(view))),
            final(view).valid(),
            final(view).current_row == old(view).current_row,
            final(view).rendered_lines == old(view).rendered_lines,
    {
        let (history, index, done) = self.take_parts();
        let count = history.len();
        let new_index = if index == 0 {
            (if count > 1 { count } else { 1 }) - 1
        } else {
            index - 1
        };
        *self = ReplSupport { submission_history: history, submission_history_index: new_index, done };
        self.update_document_from_history(view)
    }

    fn handle_page_down(&mut self, view: &mut SubmissionView) -> (res: bool)
        requires
            old(view).valid(),
            old(self).history().len() > 0,
        ensures
            (edit_state(*final(self), *final(view)), res) == page_down_edit(edit_state(*old(self), *old(view))),
            final(view).valid(),
            final(view).current_row == old(view).current_row,
            final(view).rendered_lines == old(view).rendered_lines,
    {
        let (history, index, done) = self.take_parts();
        let new_index = if index == history.len() - 1 { 0 } else { index + 1 };
        *self = ReplSupport { submission_history: history, submission_history_index: new_index, done };
        self.update_document_from_history(view)
    }

    fn update_document_from_history(&self, view: &mut SubmissionView) -> (res: bool)
        requires
            old(view).valid(),
        ensures
            (edit_state(*self, *final(view)), res) == recall(edit_state(*self, *old(view))),
            final(view).valid(),
            final(view).current_row == old(view).current_row,
            final(view).rendered_lines == old(view).rendered_lines,
    {
        proof {
            use_type_invariant(self);
        }
        if self.submission_history.len() == 0 {
            false
        } else {
            let item = &self.submission_history[self.submission_history_index];
            let lines = split_lines_of(item.as_str());
            proof {
                lemma_split_nonempty(item@);
                assert(lines@.len() == split_lines(item@).len());
            }
            view.document = lines;
            let last = view.document.len() - 1;
            view.set_current_line(last);
            let len = view.line_len(last);
            view.set_current_char(len);
            true
        }
    }

    /// The text of the finished submission in `view`: its lines joined by
    /// line breaks. The cursor goes to the end of the last line.
    pub fn finish_submission(&self, view: &mut SubmissionView) -> (res: String)
        requires
            old(view).valid(),
        ensures
            res@ == join_lines(old(view).lines()),
            final(view).lines() == old(view).lines(),
            final(view).current_line == old(view).document@.len() - 1,
            final(view).current_char == old(view).lines().last().len(),
            final(view).valid(),
            final(view).current_row == old(view).current_row,
            final(view).rendered_lines == old(view).rendered_lines,
    {
        let last = view.document.len() - 1;
        view.set_current_line(last);
        let len = view.line_len(last);
        view.set_current_char(len);
        join_lines_of(&view.document)
    }

    /// Keeps `text`, a finished submission, and points the history at its
    /// start again.
    pub fn record_submission(&mut self, text: String)
        ensures
            final(self).history() == old(self).history().push(text@),
            final(self).history_index() == 0,
            final(self).is_done() == old(self).is_done(),
    {
        let (mut history, _, done) = self.take_parts();
        let ghost before = history@;
        history.push(text);
        proof {
            assert(lines_of(history@) =~= lines_of(before).push(text@));
        }
        *self = ReplSupport { submission_history: history, submission_history_index: 0, done };
    }
}

} // verus!
