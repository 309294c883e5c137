//! The lexer that tags each token with the snippet of source it covers.
//! Whitespace is skipped; names are interned; a character no token starts
//! with and an integer that does not fit in 64 bits are reported as
//! diagnostics. The end of the text reads as one `\0`, which gives the
//! end-of-file token.
//!
//! A snippet runs from the position of its first character to that of its
//! last one, both included; positions count the characters read.

use vstd::prelude::*;

use crate::context::symbol_interner::{interned, SymbolInterner};
use crate::diagnostic::error::{Diagnostic, DiagnosticMessage, Level};
use crate::lexer::token::{Token, TokenKind};
use crate::source::snippet::{Snippet, SourcePos};
use crate::source::source::{Source, SourceId};
use crate::text::{
    alphabetic_spec, alphanumeric_spec, chars_match, chars_of, is_alphabetic, is_alphanumeric, is_ascii_digit,
    is_ascii_digit_spec, is_whitespace, whitespace_spec,
};

verus! {

/// Where the lexer stands: how many characters of the text it has read, how
/// many reads it has made, and whether it has read the end of the text.
pub struct LexState {
    pub idx: int,
    pub pos: int,
    pub eof: bool,
}

/// What the lexer reports.
pub enum LexComplaint {
    /// A character no token starts with.
    Unrecognized(Snippet),
    /// An integer that does not fit in 64 bits.
    Overflow(Snippet),
}

/// The runs of characters the lexer reads on.
#[derive(Clone, Copy, PartialEq, Eq, Structural)]
pub enum Run {
    Digits,
    Word,
}

/// Whether `c` belongs to run `r`.
pub open spec fn in_run(r: Run, c: char) -> bool {
    match r {
        Run::Digits => is_ascii_digit_spec(c),
        Run::Word => alphanumeric_spec(c) || c == '_',
    }
}

/// The character the lexer sees next, without reading it.
pub open spec fn peek_spec(chars: Seq<char>, st: LexState) -> Option<char> {
    if st.idx < chars.len() {
        Some(chars[st.idx])
    } else if !st.eof {
        Some('\0')
    } else {
        None
    }
}

/// Reads one character: the next of the text, then `\0` once, then none.
pub open spec fn next_spec(chars: Seq<char>, st: LexState) -> (Option<char>, LexState) {
    if st.idx < chars.len() {
        (Some(chars[st.idx]), LexState { idx: st.idx + 1, pos: st.pos + 1, eof: st.eof })
    } else if !st.eof {
        (Some('\0'), LexState { idx: st.idx, pos: st.pos + 1, eof: true })
    } else {
        (None, LexState { idx: st.idx, pos: st.pos + 1, eof: st.eof })
    }
}

/// The index of the first character from `i` on that is not in `pred`'s
/// run, or the end of the text.
pub open spec fn run_end(chars: Seq<char>, i: int, r: Run) -> int
    decreases chars.len() - i,
{
    if i < 0 || i >= chars.len() || !in_run(r, chars[i]) {
        i
    } else {
        run_end(chars, i + 1, r)
    }
}

/// Reads on while the characters are in run `r`.
pub open spec fn run_spec(chars: Seq<char>, st: LexState, r: Run) -> LexState {
    let j = run_end(chars, st.idx, r);
    LexState { idx: j, pos: st.pos + (j - st.idx), eof: st.eof }
}

/// Skips white space.
pub open spec fn skip_ws(chars: Seq<char>, st: LexState) -> LexState
    decreases chars.len() - st.idx,
{
    if 0 <= st.idx < chars.len() && whitespace_spec(chars[st.idx]) {
        skip_ws(chars, LexState { idx: st.idx + 1, pos: st.pos + 1, eof: st.eof })
    } else {
        st
    }
}

/// The snippet of source `id` from `start` to `end`, both included.
pub open spec fn snip(id: SourceId, start: int, end: int) -> Snippet {
    Snippet { source_id: id, start: SourcePos(start as usize), end: SourcePos(end as usize) }
}

/// The value of a digit character.
pub open spec fn digit_value(c: char) -> int {
    (c as int) - ('0' as int)
}

/// The value of the decimal digits `s`.
pub open spec fn digits_value(s: Seq<char>) -> int
    decreases s.len(),
{
    if s.len() == 0 {
        0
    } else {
        digits_value(s.drop_last()) * 10 + digit_value(s.last())
    }
}

/// The value of an integer literal: digits, after an optional sign.
pub open spec fn literal_value(text: Seq<char>) -> int {
    if text.len() > 0 && text[0] == '-' {
        -digits_value(text.drop_first())
    } else if text.len() > 0 && text[0] == '+' {
        digits_value(text.drop_first())
    } else {
        digits_value(text)
    }
}

/// The keyword a word spells, if it spells one.
pub open spec fn keyword(word: Seq<char>) -> Option<TokenKind> {
    if word == "true"@ {
        Some(TokenKind::Boolean(true))
    } else if word == "false"@ {
        Some(TokenKind::Boolean(false))
    } else if word == "not"@ {
        Some(TokenKind::Not)
    } else if word == "or"@ {
        Some(TokenKind::Or)
    } else if word == "and"@ {
        Some(TokenKind::And)
    } else if word == "let"@ {
        Some(TokenKind::Let)
    } else if word == "if"@ {
        Some(TokenKind::If)
    } else if word == "then"@ {
        Some(TokenKind::Then)
    } else if word == "else"@ {
        Some(TokenKind::Else)
    } else if word == "while"@ {
        Some(TokenKind::While)
    } else if word == "define"@ {
        Some(TokenKind::Define)
    } else if word == "return"@ {
        Some(TokenKind::Return)
    } else {
        None
    }
}

/// The token a single character `c` makes on its own, if it makes one.
pub open spec fn single_kind(c: char) -> Option<TokenKind> {
    if c == '(' {
        Some(TokenKind::LeftParenthesis)
    } else if c == ')' {
        Some(TokenKind::RightParenthesis)
    } else if c == '{' {
        Some(TokenKind::LeftCurlyBrace)
    } else if c == '}' {
        Some(TokenKind::RightCurlyBrace)
    } else if c == '+' {
        Some(TokenKind::Plus)
    } else if c == '-' {
        Some(TokenKind::Minus)
    } else if c == '*' {
        Some(TokenKind::Star)
    } else if c == '/' {
        Some(TokenKind::Slash)
    } else if c == '%' {
        Some(TokenKind::Percent)
    } else if c == '=' {
        Some(TokenKind::Equal)
    } else if c == ',' {
        Some(TokenKind::Comma)
    } else if c == ';' {
        Some(TokenKind::SemiColon)
    } else if c == '\0' {
        Some(TokenKind::EndOfFile)
    } else {
        None
    }
}

/// The token a single character `c` makes on its own, if it makes one.
fn single_kind_of(c: char) -> (res: Option<TokenKind>)
    ensures
        res == single_kind(c),
{
    if c == '(' {
        Some(TokenKind::LeftParenthesis)
    } else if c == ')' {
        Some(TokenKind::RightParenthesis)
    } else if c == '{' {
        Some(TokenKind::LeftCurlyBrace)
    } else if c == '}' {
        Some(TokenKind::RightCurlyBrace)
    } else if c == '+' {
        Some(TokenKind::Plus)
    } else if c == '-' {
        Some(TokenKind::Minus)
    } else if c == '*' {
        Some(TokenKind::Star)
    } else if c == '/' {
        Some(TokenKind::Slash)
    } else if c == '%' {
        Some(TokenKind::Percent)
    } else if c == '=' {
        Some(TokenKind::Equal)
    } else if c == ',' {
        Some(TokenKind::Comma)
    } else if c == ';' {
        Some(TokenKind::SemiColon)
    } else if c == '\0' {
        Some(TokenKind::EndOfFile)
    } else {
        None
    }
}

/// The result of one step: the token, the state after it, the interned
/// names, and what was reported.
pub type LexStep = (Option<Token>, LexState, Seq<Seq<char>>, Option<LexComplaint>);

/// An integer literal whose first character (a digit or a sign) was read
/// at `start`.
pub open spec fn number_spec(chars: Seq<char>, id: SourceId, st: LexState, start: int, symbols: Seq<Seq<char>>) -> LexStep {
    let s1 = run_spec(chars, st, Run::Digits);
    let snippet = snip(id, start, s1.pos - 1);
    let v = literal_value(chars.subrange(start, s1.idx));
    if i64::MIN <= v <= i64::MAX {
        (Some(Token { snippet, kind: TokenKind::Int(v as i64) }), s1, symbols, None)
    } else {
        (Some(Token { snippet, kind: TokenKind::Int(0) }), s1, symbols, Some(LexComplaint::Overflow(snippet)))
    }
}

/// A word whose first letter was read at `start`: a keyword, or a name that
/// is interned.
pub open spec fn word_spec(chars: Seq<char>, id: SourceId, st: LexState, start: int, symbols: Seq<Seq<char>>) -> LexStep {
    let s1 = run_spec(chars, st, Run::Word);
    let snippet = snip(id, start, s1.pos - 1);
    let word = chars.subrange(start, s1.idx);
    match keyword(word) {
        Some(kind) => (Some(Token { snippet, kind }), s1, symbols, None),
        None => {
            let (symbols2, symbol) = interned(symbols, word);
            (Some(Token { snippet, kind: TokenKind::Identifer(symbol as usize) }), s1, symbols2, None)
        },
    }
}

/// `consumed` over two characters when the next is `second`, else `single`
/// over the one read at `start`.
pub open spec fn optional_spec(
    chars: Seq<char>,
    id: SourceId,
    st: LexState,
    start: int,
    second: char,
    consumed: TokenKind,
    single: TokenKind,
    symbols: Seq<Seq<char>>,
) -> LexStep {
    if peek_spec(chars, st) == Some(second) {
        let s1 = next_spec(chars, st).1;
        (Some(Token { snippet: snip(id, start, s1.pos - 1), kind: consumed }), s1, symbols, None)
    } else {
        (Some(Token { snippet: snip(id, start, start), kind: single }), st, symbols, None)
    }
}

/// The next token of the text `chars` of source `id` (`Iterator::next`):
/// white space skipped, then by the character read.
pub open spec fn lex_step(chars: Seq<char>, id: SourceId, st: LexState, symbols: Seq<Seq<char>>) -> LexStep {
    let s0 = skip_ws(chars, st);
    let (c, s1) = next_spec(chars, s0);
    match c {
        None => (None, s1, symbols, None),
        Some(ch) => {
            let start = s1.pos - 1;
            if is_ascii_digit_spec(ch) {
                number_spec(chars, id, s1, start, symbols)
            } else if alphabetic_spec(ch) {
                word_spec(chars, id, s1, start, symbols)
            } else if ch == '<' {
                optional_spec(chars, id, s1, start, '=', TokenKind::LessThanEqual, TokenKind::LeftAngleBracket, symbols)
            } else if ch == '>' {
                optional_spec(chars, id, s1, start, '=', TokenKind::GreaterThanEqual, TokenKind::RightAngleBracket, symbols)
            } else if (ch == '+' || ch == '-') && (peek_spec(chars, s1) matches Some(d) && is_ascii_digit_spec(d)) {
                number_spec(chars, id, s1, start, symbols)
            } else if ch == ':' {
                optional_spec(chars, id, s1, start, ':', TokenKind::ColonColon, TokenKind::Colon, symbols)
            } else {
                match single_kind(ch) {
                    Some(kind) => (Some(Token { snippet: snip(id, start, start), kind }), s1, symbols, None),
                    None => (None, s1, symbols, Some(LexComplaint::Unrecognized(snip(id, start, start)))),
                }
            }
        },
    }
}

/// `d` is the diagnostic of complaint `c`.
pub open spec fn reports(d: Diagnostic, c: LexComplaint) -> bool {
    match c {
        LexComplaint::Unrecognized(snippet) => {
            &&& d.level() == Level::Error
            &&& d.messages() == seq!["unrecognized character"@]
            &&& d.snippet() == snippet
            &&& d.child_count() == 0
            &&& d.footer().len() == 0
        },
        LexComplaint::Overflow(snippet) => {
            &&& d.level() == Level::Error
            &&& d.messages() == seq!["numerical overflow"@]
            &&& d.snippet() == snippet
            &&& d.child_count() == 0
            &&& d.footer() == seq![
                (Level::Hint, "all integers must be in the range (`-9223372036854775808`, `9223372036854775807`)"@),
            ]
        },
    }
}

/// The value of the digits `chars[from..to]` grows by a tenth of a digit.
proof fn lemma_digits_push(chars: Seq<char>, from: int, to: int)
    requires
        0 <= from <= to < chars.len(),
    ensures
        digits_value(chars.subrange(from, to + 1)) == digits_value(chars.subrange(from, to)) * 10 + digit_value(chars[to]),
{
    assert(chars.subrange(from, to + 1).drop_last() =~= chars.subrange(from, to));
}

/// Digit values are never negative.
proof fn lemma_digits_nonneg(s: Seq<char>)
    requires
        forall|i: int| 0 <= i < s.len() ==> is_ascii_digit_spec(#[trigger] s[i]),
    ensures
        digits_value(s) >= 0,
    decreases s.len(),
{
    if s.len() > 0 {
        lemma_digits_nonneg(s.drop_last());
    }
}

/// A run ends within the text, at or after where it starts, and holds only
/// characters of the run.
proof fn lemma_run_end(chars: Seq<char>, i: int, r: Run)
    requires
        0 <= i <= chars.len(),
    ensures
        i <= run_end(chars, i, r) <= chars.len(),
        forall|k: int| i <= k < run_end(chars, i, r) ==> in_run(r, #[trigger] chars[k]),
        run_end(chars, i, r) < chars.len() ==> !in_run(r, chars[run_end(chars, i, r)]),
    decreases chars.len() - i,
{
    if i < chars.len() && in_run(r, chars[i]) {
        lemma_run_end(chars, i + 1, r);
    }
}

/// Reads the tokens of a source.
pub struct LexicalAnalyzer<'source> {
    source: &'source Source,
    chars: Vec<char>,
    idx: usize,
    pos: usize,
    reached_eof: bool,
}

impl<'source> LexicalAnalyzer<'source> {
    /// The characters of the text.
    pub closed spec fn chars(&self) -> Seq<char> {
        self.chars@
    }

    /// The id of the source.
    pub closed spec fn source_id(&self) -> SourceId {
        self.source.id
    }

    /// Where the lexer stands.
    pub closed spec fn state(&self) -> LexState {
        LexState { idx: self.idx as int, pos: self.pos as int, eof: self.reached_eof }
    }

    /// The reads made keep pace with the characters read.
    pub closed spec fn wf(&self) -> bool {
        &&& self.chars@ == self.source.text@
        &&& self.idx <= self.chars@.len()
        &&& (!self.reached_eof ==> self.pos == self.idx)
        &&& (self.reached_eof ==> self.idx == self.chars@.len() && self.pos > self.idx)
    }

    /// A lexer at the start of `source`.
    pub fn new(source: &'source Source) -> (res: Self)
        ensures
            res.chars() == source.text@,
            res.source_id() == source.id,
            res.state() == (LexState { idx: 0, pos: 0, eof: false }),
            res.wf(),
    {
        let chars = chars_of(source.text.as_str());
        LexicalAnalyzer { source, chars, idx: 0, pos: 0, reached_eof: false }
    }

    fn peek(&self) -> (res: Option<char>)
        requires
            self.wf(),
        ensures
            res == peek_spec(self.chars@, self.state()),
    {
        if self.idx < self.chars.len() {
            Some(self.chars[self.idx])
        } else if !self.reached_eof {
            Some('\0')
        } else {
            None
        }
    }

    fn next(&mut self) -> (res: Option<char>)
        requires
            old(self).wf(),
            old(self).pos < usize::MAX,
        ensures
            final(self).wf(),
            final(self).chars@ == old(self).chars@,
            final(self).source == old(self).source,
            (res, final(self).state()) == next_spec(old(self).chars@, old(self).state()),
    {
        self.pos = self.pos + 1;
        if self.idx < self.chars.len() {
            self.idx = self.idx + 1;
            Some(self.chars[self.idx - 1])
        } else if !self.reached_eof {
            self.reached_eof = true;
            Some('\0')
        } else {
            None
        }
    }

    fn skip_whitespace(&mut self)
        requires
            old(self).wf(),
            old(self).pos + old(self).chars@.len() - old(self).idx < usize::MAX,
        ensures
            final(self).wf(),
            final(self).chars@ == old(self).chars@,
            final(self).source == old(self).source,
            final(self).state() == skip_ws(old(self).chars@, old(self).state()),
            final(self).pos - final(self).idx == old(self).pos - old(self).idx,
    {
        let ghost chars = self.chars@;
        let ghost goal = skip_ws(chars, self.state());
        loop
            invariant
                self.wf(),
                self.chars@ == chars,
                chars == old(self).chars@,
                goal == skip_ws(old(self).chars@, old(self).state()),
                self.source == old(self).source,
                self.pos + chars.len() - self.idx < usize::MAX,
                self.pos - self.idx == old(self).pos - old(self).idx,
                skip_ws(chars, self.state()) == goal,
            decreases chars.len() - self.idx,
        {
            match self.peek() {
                Some(c) => {
                    if self.idx < self.chars.len() && is_whitespace(c) {
                        self.next();
                    } else {
                        proof {
                            assert(!(0 <= self.idx < chars.len() && whitespace_spec(chars[self.idx as int])));
                        }
                        return;
                    }
                },
                None => {
                    return;
                },
            }
        }
    }

    /// Whether the next character of the text is in run `r`.
    fn at_run(&self, r: Run) -> (res: bool)
        ensures
            res == (self.idx < self.chars@.len() && in_run(r, self.chars@[self.idx as int])),
    {
        if self.idx < self.chars.len() {
            let c = self.chars[self.idx];
            match r {
                Run::Digits => is_ascii_digit(c),
                Run::Word => is_alphanumeric(c) || c == '_',
            }
        } else {
            false
        }
    }

    /// Reads on while the characters are in run `r`.
    fn continue_while(&mut self, r: Run)
        requires
            old(self).wf(),
            !old(self).reached_eof,
            old(self).pos + old(self).chars@.len() - old(self).idx < usize::MAX,
        ensures
            final(self).wf(),
            final(self).chars@ == old(self).chars@,
            final(self).source == old(self).source,
            final(self).state() == run_spec(old(self).chars@, old(self).state(), r),
    {
        let ghost chars = self.chars@;
        let ghost st0 = self.state();
        proof {
            lemma_run_end(chars, st0.idx, r);
        }
        while self.at_run(r)
            invariant
                self.wf(),
                !self.reached_eof,
                self.chars@ == chars,
                chars == old(self).chars@,
                st0 == old(self).state(),
                self.source == old(self).source,
                st0.idx <= self.idx <= run_end(chars, st0.idx, r),
                self.pos == st0.pos + (self.idx - st0.idx),
                st0.pos + chars.len() - st0.idx < usize::MAX,
                forall|k: int| st0.idx <= k < run_end(chars, st0.idx, r) ==> in_run(r, #[trigger] chars[k]),
                run_end(chars, st0.idx, r) <= chars.len(),
                run_end(chars, st0.idx, r) < chars.len() ==> !in_run(r, chars[run_end(chars, st0.idx, r)]),
            decreases chars.len() - self.idx,
        {
            self.next();
        }
    }

    /// The snippet from `start` to the last character read.
    fn generate_snippet(&self, start: usize) -> (res: Snippet)
        requires
            self.pos >= 1,
        ensures
            res == snip(self.source.id, start as int, self.pos - 1),
    {
        Snippet::new(self.source.id, SourcePos(start), SourcePos(self.pos - 1))
    }

    /// An integer literal whose first character was read at `start`.
    fn tokenize_number(&mut self, start: usize, diagnostics: &mut Vec<Diagnostic>, Ghost(symbols): Ghost<Seq<Seq<char>>>) -> (res: Token)
        requires
            old(self).wf(),
            !old(self).reached_eof,
            old(self).pos + old(self).chars@.len() - old(self).idx < usize::MAX,
            1 <= old(self).pos,
            start == old(self).pos - 1,
            is_ascii_digit_spec(old(self).chars@[start as int]) || old(self).chars@[start as int] == '-'
                || old(self).chars@[start as int] == '+',
            forall|k: int| start < k < old(self).idx ==> is_ascii_digit_spec(#[trigger] old(self).chars@[k]),
        ensures
            final(self).wf(),
            final(self).chars@ == old(self).chars@,
            final(self).source == old(self).source,
            ({
                let (t, st, _, complaint) = number_spec(old(self).chars@, old(self).source.id, old(self).state(), start as int, symbols);
                &&& t == Some(res)
                &&& final(self).state() == st
                &&& match complaint {
                    None => final(diagnostics)@ == old(diagnostics)@,
                    Some(c) => final(diagnostics)@.len() == old(diagnostics)@.len() + 1
                        && final(diagnostics)@.subrange(0, old(diagnostics)@.len() as int) == old(diagnostics)@
                        && reports(final(diagnostics)@.last(), c),
                }
            }),
    {
        let ghost chars = self.chars@;
        let ghost st0 = self.state();
        proof {
            lemma_run_end(chars, st0.idx, Run::Digits);
        }
        self.continue_while(Run::Digits);
        let snippet = self.generate_snippet(start);
        let end = self.idx;
        let first = self.chars[start];
        let digits_from = if first == '-' || first == '+' { start + 1 } else { start };
        // The magnitude, while it fits in 64 bits.
        let mut magnitude: u64 = 0;
        let mut over = false;
        let mut k = digits_from;
        while k < end
            invariant
                chars == self.chars@,
                digits_from <= k <= end <= chars.len(),
                forall|i: int| digits_from <= i < end ==> is_ascii_digit_spec(#[trigger] chars[i]),
                !over ==> magnitude as int == digits_value(chars.subrange(digits_from as int, k as int)),
                over ==> digits_value(chars.subrange(digits_from as int, k as int)) > u64::MAX,
            decreases end - k,
        {
            let c = self.chars[k];
            let d = (c as u32 - '0' as u32) as u64;
            proof {
                lemma_digits_push(chars, digits_from as int, k as int);
                lemma_digits_nonneg(chars.subrange(digits_from as int, k as int));
                assert(d as int == digit_value(c));
            }
            if !over {
                if magnitude > (u64::MAX - d) / 10 {
                    over = true;
                    proof {
                        assert(magnitude * 10 + d > u64::MAX) by (nonlinear_arith)
                            requires
                                magnitude > (u64::MAX - d) / 10,
                                d <= 9,
                        ;
                    }
                } else {
                    proof {
                        assert(magnitude * 10 + d <= u64::MAX) by (nonlinear_arith)
                            requires
                                magnitude <= (u64::MAX - d) / 10,
                                d <= 9,
                        ;
                    }
                    magnitude = magnitude * 10 + d;
                }
            } else {
                proof {
                    let prev = digits_value(chars.subrange(digits_from as int, k as int));
                    assert(prev * 10 + digit_value(c) > u64::MAX) by (nonlinear_arith)
                        requires
                            prev > u64::MAX,
                            digit_value(c) >= 0,
                    ;
                }
            }
            k = k + 1;
        }
        proof {
            let text = chars.subrange(start as int, end as int);
            if first == '-' || first == '+' {
                assert(text.drop_first() =~= chars.subrange(digits_from as int, end as int));
            } else {
                assert(text =~= chars.subrange(digits_from as int, end as int));
            }
        }
        let value: Option<i64> = if over {
            None
        } else if first == '-' {
            if magnitude <= 9223372036854775807 {
                Some(-(magnitude as i64))
            } else if magnitude == 9223372036854775808 {
                Some(i64::MIN)
            } else {
                None
            }
        } else if magnitude <= 9223372036854775807 {
            Some(magnitude as i64)
        } else {
            None
        };
        match value {
            Some(v) => Token::new(snippet, TokenKind::Int(v)),
            None => {
                let messages: Vec<DiagnosticMessage> = vec!["numerical overflow".to_owned()];
                proof {
                    assert(messages@.map_values(|m: DiagnosticMessage| m@) =~= seq!["numerical overflow"@]);
                }
                let hint = "all integers must be in the range (`-9223372036854775808`, `9223372036854775807`)".to_owned();
                let ghost hint_text = hint@;
                let diagnostic = Diagnostic::new(Level::Error, messages, snippet).add_footer(Level::Hint, hint);
                proof {
                    assert(diagnostic.footer() =~= seq![(Level::Hint, hint_text)]);
                }
                let ghost before = diagnostics@;
                diagnostics.push(diagnostic);
                proof {
                    assert(diagnostics@.subrange(0, before.len() as int) =~= before);
                }
                Token::new(snippet, TokenKind::Int(0))
            },
        }
    }

    /// A word whose first letter was read at `start`.
    fn tokenize_word(&mut self, start: usize, symbols: &mut SymbolInterner) -> (res: Token)
        requires
            old(self).wf(),
            !old(self).reached_eof,
            old(self).pos + old(self).chars@.len() - old(self).idx < usize::MAX,
            1 <= old(self).pos,
            start == old(self).pos - 1,
            old(symbols).symbols().len() < u32::MAX,
        ensures
            final(self).wf(),
            final(self).chars@ == old(self).chars@,
            final(self).source == old(self).source,
            word_spec(old(self).chars@, old(self).source.id, old(self).state(), start as int, old(symbols).symbols())
                == (Some(res), final(self).state(), final(symbols).symbols(), None::<LexComplaint>),
    {
        proof {
            lemma_run_end(self.chars@, self.idx as int, Run::Word);
        }
        self.continue_while(Run::Word);
        let snippet = self.generate_snippet(start);
        let end = self.idx;
        let kind = if chars_match(&self.chars, start, end, "true") {
            Some(TokenKind::Boolean(true))
        } else if chars_match(&self.chars, start, end, "false") {
            Some(TokenKind::Boolean(false))
        } else if chars_match(&self.chars, start, end, "not") {
            Some(TokenKind::Not)
        } else if chars_match(&self.chars, start, end, "or") {
            Some(TokenKind::Or)
        } else if chars_match(&self.chars, start, end, "and") {
            Some(TokenKind::And)
        } else if chars_match(&self.chars, start, end, "let") {
            Some(TokenKind::Let)
        } else if chars_match(&self.chars, start, end, "if") {
            Some(TokenKind::If)
        } else if chars_match(&self.chars, start, end, "then") {
            Some(TokenKind::Then)
        } else if chars_match(&self.chars, start, end, "else") {
            Some(TokenKind::Else)
        } else if chars_match(&self.chars, start, end, "while") {
            Some(TokenKind::While)
        } else if chars_match(&self.chars, start, end, "define") {
            Some(TokenKind::Define)
        } else if chars_match(&self.chars, start, end, "return") {
            Some(TokenKind::Return)
        } else {
            None
        };
        match kind {
            Some(kind) => Token::new(snippet, kind),
            None => {
                let word = self.source.text.as_str().substring_char(start, end);
                let symbol = symbols.get_symbol(word);
                Token::new(snippet, TokenKind::Identifer(symbol))
            },
        }
    }

    /// `consumed` over the character read at `start` and the next one when
    /// that is `second`; else `single` over the one read.
    fn optionally_continue(&mut self, start: usize, second: char, consumed: TokenKind, single: TokenKind) -> (res: Token)
        requires
            old(self).wf(),
            old(self).pos < usize::MAX,
            1 <= old(self).pos,
            start == old(self).pos - 1,
        ensures
            final(self).wf(),
            final(self).chars@ == old(self).chars@,
            final(self).source == old(self).source,
            ({
                let (t, st, _, _) = optional_spec(
                    old(self).chars@,
                    old(self).source.id,
                    old(self).state(),
                    start as int,
                    second,
                    consumed,
                    single,
                    Seq::empty(),
                );
                t == Some(res) && st == final(self).state()
            }),
    {
        let next_is_second = match self.peek() {
            Some(c) => c == second,
            None => false,
        };
        if next_is_second {
            self.next();
            Token::new(self.generate_snippet(start), consumed)
        } else {
            Token::new(self.generate_snippet(start), single)
        }
    }

    /// The next token (see `lex_step`): names are interned into `symbols`,
    /// and what is reported is added to `diagnostics`.
    pub fn next_token(&mut self, symbols: &mut SymbolInterner, diagnostics: &mut Vec<Diagnostic>) -> (res: Option<Token>)
        requires
            old(self).wf(),
            old(self).state().pos + old(self).chars().len() + 2 < usize::MAX,
            old(symbols).symbols().len() < u32::MAX,
        ensures
            final(self).wf(),
            final(self).chars() == old(self).chars(),
            final(self).source_id() == old(self).source_id(),
            ({
                let (t, st, syms, complaint) = lex_step(old(self).chars(), old(self).source_id(), old(self).state(), old(symbols).symbols());
                &&& t == res
                &&& final(self).state() == st
                &&& final(symbols).symbols() == syms
                &&& match complaint {
                    None => final(diagnostics)@ == old(diagnostics)@,
                    Some(c) => final(diagnostics)@.len() == old(diagnostics)@.len() + 1
                        && final(diagnostics)@.subrange(0, old(diagnostics)@.len() as int) == old(diagnostics)@
                        && reports(final(diagnostics)@.last(), c),
                }
            }),
    {
        self.skip_whitespace();
        let c = match self.next() {
            Some(c) => c,
            None => return None,
        };
        let start = self.pos - 1;
        if is_ascii_digit(c) {
            return Some(self.tokenize_number(start, diagnostics, Ghost(symbols.symbols())));
        }
        if is_alphabetic(c) {
            return Some(self.tokenize_word(start, symbols));
        }
        if c == '<' {
            return Some(self.optionally_continue(start, '=', TokenKind::LessThanEqual, TokenKind::LeftAngleBracket));
        }
        if c == '>' {
            return Some(self.optionally_continue(start, '=', TokenKind::GreaterThanEqual, TokenKind::RightAngleBracket));
        }
        if c == '+' || c == '-' {
            let digit_next = match self.peek() {
                Some(d) => is_ascii_digit(d),
                None => false,
            };
            if digit_next {
                return Some(self.tokenize_number(start, diagnostics, Ghost(symbols.symbols())));
            }
        }
        if c == ':' {
            return Some(self.optionally_continue(start, ':', TokenKind::ColonColon, TokenKind::Colon));
        }
        match single_kind_of(c) {
            Some(kind) => Some(Token::new(self.generate_snippet(start), kind)),
            None => {
                let messages: Vec<DiagnosticMessage> = vec!["unrecognized character".to_owned()];
                proof {
                    assert(messages@.map_values(|m: DiagnosticMessage| m@) =~= seq!["unrecognized character"@]);
                }
                let diagnostic = Diagnostic::new(Level::Error, messages, self.generate_snippet(start));
                let ghost before = diagnostics@;
                diagnostics.push(diagnostic);
                proof {
                    assert(diagnostics@.subrange(0, before.len() as int) =~= before);
                }
                None
            },
        }
    }
}

/// Each keyword is a kind of its own, named after the word. A word that is
/// a keyword gives the kind named "<word> keyword" (`true` and `false` give
/// the boolean of that value), so two different words never give the same
/// kind.
pub proof fn lemma_keywords_name_their_words(w1: Seq<char>, w2: Seq<char>)
    ensures
        keyword(w1) is Some && keyword(w1) == keyword(w2) ==> w1 == w2,
        keyword(w1) matches Some(k) ==> match k {
            TokenKind::Boolean(b) => (w1 == "true"@ || w1 == "false"@) && (b <==> w1 == "true"@),
            _ => k.text() == w1 + " keyword"@,
        },
{
    reveal_strlit(" keyword");
    reveal_strlit("true");
    reveal_strlit("false");
    reveal_strlit("not");
    reveal_strlit("not keyword");
    reveal_strlit("or");
    reveal_strlit("or keyword");
    reveal_strlit("and");
    reveal_strlit("and keyword");
    reveal_strlit("let");
    reveal_strlit("let keyword");
    reveal_strlit("if");
    reveal_strlit("if keyword");
    reveal_strlit("then");
    reveal_strlit("then keyword");
    reveal_strlit("else");
    reveal_strlit("else keyword");
    reveal_strlit("while");
    reveal_strlit("while keyword");
    reveal_strlit("define");
    reveal_strlit("define keyword");
    reveal_strlit("return");
    reveal_strlit("return keyword");
    if let Some(k) = keyword(w1) {
        if !(k is Boolean) {
            assert(k.text() =~= w1 + " keyword"@);
        }
    }
}

/// Each character that stands alone as a token gives a kind of its own: two
/// different characters never give the same kind.
pub proof fn lemma_single_kinds_are_distinct(c1: char, c2: char)
    ensures
        single_kind(c1) is Some && single_kind(c1) == single_kind(c2) ==> c1 == c2,
{
}

} // verus!
