//! The line-oriented REPL: what each key does to the input typed so far,
//! and what the terminal is to show. Reading keys, writing to the terminal
//! and running the code are left to the caller, which hands each key in and
//! carries out the action it gets back.

use vstd::prelude::*;

use crate::text::push_char;
use vstd::utf8::{decode_utf8, encode_utf8, is_ascii_chars, is_char_boundary};

verus! {

/// A key, as far as the REPL tells keys apart.
#[derive(Debug, Clone, Copy, PartialEq, Eq, Structural)]
pub enum Key {
    Char(char),
    Enter,
    Backspace,
    Escape,
    Other,
}

/// What the terminal and the caller are to do after a key.
#[derive(Debug)]
pub enum Action {
    /// Write the text.
    Write(String),
    /// Write `;` and a line break, then run the input (see
    /// `Repl::evaluated`).
    Evaluate,
    /// Clear the last character on the terminal.
    ClearChar,
    /// Nothing to show.
    Nothing,
    /// Write the farewell line and stop.
    Stop,
}

/// The state of the REPL: the input typed so far and how many characters
/// of it the submission being typed holds.
pub struct ReplState {
    pub input: Seq<char>,
    pub current: int,
}

/// An action as a mathematical value.
pub enum ActionView {
    Write(Seq<char>),
    Evaluate,
    ClearChar,
    Nothing,
    Stop,
}

impl View for Action {
    type V = ActionView;

    open spec fn view(&self) -> ActionView {
        match self {
            Action::Write(s) => ActionView::Write(s@),
            Action::Evaluate => ActionView::Evaluate,
            Action::ClearChar => ActionView::ClearChar,
            Action::Nothing => ActionView::Nothing,
            Action::Stop => ActionView::Stop,
        }
    }
}

/// What the key `key` does: `;` ends the submission and runs the input; a
/// character is typed; Enter starts a new line of the submission;
/// Backspace takes back the last character typed; Escape stops.
pub open spec fn key_step(s: ReplState, key: Key) -> (ReplState, ActionView) {
    match key {
        Key::Char(c) => if c == ';' {
            (ReplState { input: s.input.push('\n'), ..s }, ActionView::Evaluate)
        } else {
            (ReplState { input: s.input.push(c), current: s.current + 1 }, ActionView::Write(seq![c]))
        },
        Key::Enter => (
            ReplState { input: s.input.push('\n'), current: s.current + 1 },
            ActionView::Write("\n         | "@),
        ),
        Key::Backspace => (
            ReplState {
                input: if s.input.len() > 0 { s.input.drop_last() } else { s.input },
                current: if s.current != 0 { s.current - 1 } else { 0 },
            },
            if s.input.len() > 0 { ActionView::ClearChar } else { ActionView::Nothing },
        ),
        Key::Escape => (s, ActionView::Stop),
        Key::Other => (s, ActionView::Nothing),
    }
}

/// The input left after a failed run: its UTF-8 bytes without the last
/// `current + 1` of them (the submission's length counts characters, the
/// cut counts bytes), read back as text.
pub open spec fn failed_run_input(input: Seq<char>, current: int) -> Seq<char> {
    let bytes = encode_utf8(input);
    decode_utf8(bytes.subrange(0, bytes.len() - current - 1))
}

/// A failed run can take the submission back out: the input holds at least
/// `current + 1` bytes, and the cut falls on a character boundary.
pub open spec fn failed_run_cut_ok(s: ReplState) -> bool {
    let bytes = encode_utf8(s.input);
    &&& s.current + 1 <= bytes.len()
    &&& is_char_boundary(bytes, bytes.len() - s.current - 1)
}

/// Backspace can take the last character back: it is a one-byte (ASCII)
/// character, or nothing is typed.
pub open spec fn backspace_ok(s: ReplState) -> bool {
    s.input.len() > 0 ==> (s.input.last() as u32) < 128
}

/// After the input ran: on success it is kept; on failure the submission
/// just run is taken back out of it (with its line break). Either way the
/// next submission starts empty.
pub open spec fn after_run(s: ReplState, succeeded: bool) -> ReplState {
    ReplState {
        input: if succeeded { s.input } else { failed_run_input(s.input, s.current) },
        current: 0,
    }
}

/// The UTF-8 encoding of two texts one after the other is the encoding of
/// the first followed by that of the second.
proof fn lemma_encode_utf8_concat(a: Seq<char>, b: Seq<char>)
    ensures
        encode_utf8(a + b) == encode_utf8(a) + encode_utf8(b),
    decreases a.len(),
{
    if a.len() == 0 {
        assert(a + b =~= b);
        assert(encode_utf8(a) + encode_utf8(b) =~= encode_utf8(b));
    } else {
        assert((a + b).drop_first() =~= a.drop_first() + b);
        assert((a + b)[0] == a[0]);
        lemma_encode_utf8_concat(a.drop_first(), b);
        assert(encode_utf8(a + b) =~= encode_utf8(a) + encode_utf8(b));
    }
}

/// Each character takes one to four bytes in UTF-8.
proof fn lemma_encode_utf8_len(chars: Seq<char>)
    ensures
        chars.len() <= encode_utf8(chars).len() <= 4 * chars.len(),
    decreases chars.len(),
{
    if chars.len() > 0 {
        lemma_encode_utf8_len(chars.drop_first());
    }
}

/// A character added at the end takes one to four more bytes.
proof fn lemma_encode_push(s: Seq<char>, c: char)
    ensures
        encode_utf8(s) + encode_utf8(seq![c]) == encode_utf8(s.push(c)),
        encode_utf8(s).len() < encode_utf8(s.push(c)).len() <= encode_utf8(s).len() + 4,
{
    assert(s.push(c) =~= s + seq![c]);
    lemma_encode_utf8_concat(s, seq![c]);
    lemma_encode_utf8_len(seq![c]);
}

/// Typing a one-byte character other than `;` and then pressing Backspace,
/// which may then take it back, leaves the input and the submission's
/// length as they were.
pub proof fn lemma_type_then_erase(s: ReplState, c: char)
    requires
        c != ';',
        (c as u32) < 128,
        0 <= s.current,
    ensures
        backspace_ok(key_step(s, Key::Char(c)).0),
        key_step(key_step(s, Key::Char(c)).0, Key::Backspace).0 == s,
{
    assert(s.input.push(c).drop_last() =~= s.input);
}

/// A failed run takes out exactly what was typed since the last run: an
/// input made of `base` and the `typed` one-byte characters of the
/// submission is `base` again after `;` and a failure, and the cut that
/// takes them out falls on a character boundary.
pub proof fn lemma_failed_run_restores(base: Seq<char>, typed: Seq<char>)
    requires
        is_ascii_chars(typed),
    ensures
        failed_run_cut_ok(key_step(ReplState { input: base + typed, current: typed.len() as int }, Key::Char(';')).0),
        after_run(key_step(ReplState { input: base + typed, current: typed.len() as int }, Key::Char(';')).0, false).input
            == base,
{
    broadcast use vstd::utf8::group_utf8_lib;
    let e = key_step(ReplState { input: base + typed, current: typed.len() as int }, Key::Char(';')).0;
    let tail = typed.push('\n');
    assert(e.input =~= base + tail);
    assert(is_ascii_chars(tail));
    lemma_encode_utf8_concat(base, tail);
    let bytes = encode_utf8(e.input);
    let cut = encode_utf8(base).len() as int;
    assert(bytes.subrange(0, bytes.len() - e.current - 1) =~= encode_utf8(base));
    assert(bytes[cut] == encode_utf8(tail)[0]);
    assert(encode_utf8(tail)[0] == tail[0] as u8);
    assert((tail[0] as nat) < 128);
    vstd::utf8::encode_utf8_valid_utf8(e.input);
    vstd::utf8::is_char_boundary_iff_not_is_continuation_byte(bytes, cut);
}

/// The REPL.
#[derive(Debug)]
pub struct Repl {
    input: String,
    current: usize,
}

impl Repl {
    /// The REPL's state.
    pub closed spec fn state(&self) -> ReplState {
        ReplState { input: self.input@, current: self.current as int }
    }

    /// The submission being typed lies within the input, and the input's
    /// UTF-8 length fits in a `usize`.
    pub closed spec fn valid(&self) -> bool {
        &&& self.current <= self.input@.len()
        &&& encode_utf8(self.input@).len() <= usize::MAX
    }

    /// A REPL with nothing typed.
    pub fn new() -> (res: Repl)
        ensures
            res.state() == (ReplState { input: Seq::empty(), current: 0 }),
            res.valid(),
    {
        Repl { input: String::new(), current: 0 }
    }

    /// The input typed so far.
    pub fn input(&self) -> (res: &str)
        ensures
            res@ == self.state().input,
    {
        self.input.as_str()
    }

    /// What `key` does to the input; what is to be shown.
    pub fn key_pressed(&mut self, key: Key) -> (res: Action)
        requires
            old(self).valid(),
            encode_utf8(old(self).state().input).len() + 4 <= usize::MAX,
            key == Key::Backspace ==> backspace_ok(old(self).state()),
        ensures
            (final(self).state(), res@) == key_step(old(self).state(), key),
            final(self).valid(),
    {
        proof {
            lemma_encode_utf8_len(self.input@);
        }
        match key {
            Key::Char(c) => if c == ';' {
                push_char(&mut self.input, '\n');
                proof {
                    lemma_encode_push(old(self).input@, '\n');
                }
                Action::Evaluate
            } else {
                push_char(&mut self.input, c);
                proof {
                    lemma_encode_push(old(self).input@, c);
                }
                self.current = self.current + 1;
                let mut shown = String::new();
                push_char(&mut shown, c);
                proof {
                    assert(shown@ =~= seq![c]);
                }
                Action::Write(shown)
            },
            Key::Enter => {
                push_char(&mut self.input, '\n');
                proof {
                    lemma_encode_push(old(self).input@, '\n');
                }
                self.current = self.current + 1;
                Action::Write("\n         | ".to_owned())
            },
            Key::Backspace => {
                let n = self.input.as_str().unicode_len();
                let res = if n > 0 {
                    self.input = self.input.as_str().substring_char(0, n - 1).to_owned();
                    proof {
                        assert(self.input@ =~= old(self).input@.drop_last());
                        lemma_encode_push(self.input@, old(self).input@.last());
                        assert(self.input@.push(old(self).input@.last()) =~= old(self).input@);
                    }
                    Action::ClearChar
                } else {
                    Action::Nothing
                };
                if self.current != 0 {
                    self.current = self.current - 1;
                }
                res
            },
            Key::Escape => Action::Stop,
            Key::Other => Action::Nothing,
        }
    }

    /// Whether a failed run can take the submission back out of the input
    /// (`evaluated(false)` needs it).
    pub fn can_take_back(&self) -> (res: bool)
        requires
            self.valid(),
        ensures
            res == failed_run_cut_ok(self.state()),
    {
        let bytes = self.input.as_str().len();
        self.current < bytes && self.input.as_str().is_char_boundary(bytes - self.current - 1)
    }

    /// Records how running the input went.
    pub fn evaluated(&mut self, succeeded: bool)
        requires
            old(self).valid(),
            !succeeded ==> failed_run_cut_ok(old(self).state()),
        ensures
            final(self).state() == after_run(old(self).state(), succeeded),
            final(self).valid(),
    {
        if !succeeded {
            proof {
                broadcast use vstd::utf8::group_utf8_lib;
            }
            let bytes = self.input.as_str().len();
            let (kept, _) = self.input.as_str().split_at(bytes - self.current - 1);
            self.input = kept.to_owned();
        }
        self.current = 0;
    }
}

} // verus!
