//! The byte lexer: reads tokens from ASCII input, keeping track of the line
//! and column it has reached.

use vstd::prelude::*;

use crate::lexical_analysis::error::Error;
use crate::lexical_analysis::span::Span;
use crate::lexical_analysis::token::{KindView, Token, TokenKind};
use crate::text::{chars_match, push_char};

verus! {

/// What a lexing step gives: a token or an error.
pub type LexResult = Result<Token, Error>;

/// Where the lexer stands: the index of the next byte, and the line and
/// column reached.
pub struct LexerState {
    pub index: int,
    pub line: int,
    pub column: int,
}

/// A token as the specification describes it.
pub type TokenView = (Span, KindView);

/// `c` is ASCII white space as `u8::is_ascii_whitespace` has it: tab, line
/// feed, form feed, carriage return or space.
pub open spec fn is_space_byte(c: u8) -> bool {
    c == 9 || c == 10 || c == 12 || c == 13 || c == 32
}

/// `c` is an ASCII decimal digit.
pub open spec fn is_digit_byte(c: u8) -> bool {
    48 <= c <= 57
}

/// `c` is an ASCII letter.
pub open spec fn is_letter_byte(c: u8) -> bool {
    (65 <= c <= 90) || (97 <= c <= 122)
}

/// `c` is ASCII punctuation as `u8::is_ascii_punctuation` has it.
pub open spec fn is_punctuation_byte(c: u8) -> bool {
    (33 <= c <= 47) || (58 <= c <= 64) || (91 <= c <= 96) || (123 <= c <= 126)
}

/// The byte at the lexer's index, if there is one.
pub open spec fn peek_byte(bytes: Seq<u8>, st: LexerState) -> Option<u8> {
    if 0 <= st.index < bytes.len() {
        Some(bytes[st.index])
    } else {
        None
    }
}

/// Taking a byte: the byte at the index, if any; the index and column move
/// on by one either way.
pub open spec fn next_byte(bytes: Seq<u8>, st: LexerState) -> (Option<u8>, LexerState) {
    (peek_byte(bytes, st), LexerState { index: st.index + 1, column: st.column + 1, ..st })
}

/// The span on the current line from `start_column` to the current column.
pub open spec fn span_from(st: LexerState, start_column: int) -> Span {
    Span {
        start_line: st.line as usize,
        start_column: start_column as usize,
        end_line: st.line as usize,
        end_column: st.column as usize,
    }
}

/// Reads the rest of a number whose digits so far make `number`, and whose
/// decimals so far, once a point has been read, make `decimals`. Stops at the
/// first byte that is neither a digit nor the first point; fails when the
/// integer or the decimals leave the 64-bit range, pointing at the number
/// read so far.
pub open spec fn number_loop(
    bytes: Seq<u8>,
    st: LexerState,
    number: int,
    decimals: Option<int>,
    start_column: int,
) -> (Result<(int, Option<int>), Error>, LexerState)
    decreases bytes.len() - st.index,
{
    if !(0 <= st.index < bytes.len()) {
        (Ok((number, decimals)), st)
    } else {
        let c = bytes[st.index];
        let (_, next) = next_byte(bytes, st);
        if is_digit_byte(c) {
            let d = c - 48;
            match decimals {
                Some(dec) => if dec * 10 + d > i64::MAX {
                    (Err(Error::FloatOverflow(span_from(st, start_column))), st)
                } else {
                    number_loop(bytes, next, number, Some(dec * 10 + d), start_column)
                },
                None => if number * 10 < i64::MIN || number * 10 + d > i64::MAX {
                    (Err(Error::IntegerOverflow(span_from(st, start_column))), st)
                } else {
                    number_loop(bytes, next, number * 10 + d, None, start_column)
                },
            }
        } else if c == 46 && decimals is None {
            number_loop(bytes, next, number, Some(0), start_column)
        } else {
            (Ok((number, decimals)), st)
        }
    }
}

/// A number literal whose first digit has value `digit`: an integer, or a
/// float when a point follows the digits.
pub open spec fn form_number_spec(bytes: Seq<u8>, st: LexerState, digit: int, start_column: int) -> (
    Result<TokenView, Error>,
    LexerState,
) {
    let (r, st1) = number_loop(bytes, st, digit, None, start_column);
    match r {
        Err(e) => (Err(e), st1),
        Ok((n, decimals)) => (
            Ok(
                (
                    span_from(st1, start_column),
                    match decimals {
                        Some(dec) => KindView::FloatLiteral { whole: n as i64, decimals: dec as i64 },
                        None => KindView::IntegerLiteral(n as i64),
                    },
                ),
            ),
            st1,
        ),
    }
}

/// Reads the bytes of a string literal up to the closing `quote`; says
/// whether it was found.
pub open spec fn string_loop(bytes: Seq<u8>, st: LexerState, quote: u8, text: Seq<char>) -> (
    Seq<char>,
    bool,
    LexerState,
)
    decreases bytes.len() - st.index,
{
    if !(0 <= st.index < bytes.len()) {
        (text, false, st)
    } else if bytes[st.index] == quote {
        (text, true, next_byte(bytes, st).1)
    } else {
        string_loop(bytes, next_byte(bytes, st).1, quote, text.push(bytes[st.index] as char))
    }
}

/// A string literal opened by `quote`, from the start position `st` on.
pub open spec fn form_string_spec(bytes: Seq<u8>, st: LexerState, quote: u8) -> (Result<TokenView, Error>, LexerState) {
    let (text, terminated, st1) = string_loop(bytes, st, quote, Seq::empty());
    let span = Span {
        start_line: st.line as usize,
        start_column: st.column as usize,
        end_line: st1.line as usize,
        end_column: st1.column as usize,
    };
    if !terminated {
        (Err(Error::UnterminatedString(span)), st1)
    } else {
        (Ok((span, KindView::StringLiteral(text))), st1)
    }
}

/// Reads the rest of a word: everything up to white space or punctuation
/// other than `_`.
pub open spec fn word_loop(bytes: Seq<u8>, st: LexerState, word: Seq<char>) -> (Seq<char>, LexerState)
    decreases bytes.len() - st.index,
{
    if !(0 <= st.index < bytes.len()) {
        (word, st)
    } else {
        let c = bytes[st.index];
        if is_space_byte(c) {
            (word, st)
        } else if !is_punctuation_byte(c) || c == 95 {
            word_loop(bytes, next_byte(bytes, st).1, word.push(c as char))
        } else {
            (word, st)
        }
    }
}

/// The kind of a word: a type name, a boolean literal, a keyword, or else an
/// identifier with the word as its name.
pub open spec fn word_kind(word: Seq<char>) -> KindView {
    if word == "Void"@ {
        KindView::Void
    } else if word == "Any"@ {
        KindView::Any
    } else if word == "Int"@ {
        KindView::Int
    } else if word == "Float"@ {
        KindView::Float
    } else if word == "Boolean"@ {
        KindView::Boolean
    } else if word == "String"@ {
        KindView::String
    } else if word == "true"@ {
        KindView::BooleanLiteral(true)
    } else if word == "false"@ {
        KindView::BooleanLiteral(false)
    } else if word == "not"@ {
        KindView::Not
    } else if word == "or"@ {
        KindView::Or
    } else if word == "and"@ {
        KindView::And
    } else if word == "let"@ {
        KindView::Let
    } else if word == "if"@ {
        KindView::If
    } else if word == "then"@ {
        KindView::Then
    } else if word == "else"@ {
        KindView::Else
    } else if word == "while"@ {
        KindView::While
    } else if word == "define"@ {
        KindView::Define
    } else {
        KindView::Identifier(word)
    }
}

/// A word that starts with `letter`.
pub open spec fn form_word_spec(bytes: Seq<u8>, st: LexerState, letter: char) -> (Result<TokenView, Error>, LexerState) {
    let (word, st1) = word_loop(bytes, st, seq![letter]);
    (Ok((span_from(st1, st.column), word_kind(word))), st1)
}

/// The kind of the one-byte tokens.
pub open spec fn single_byte_kind(c: u8) -> Option<KindView> {
    if c == 43 {
        Some(KindView::Plus)
    } else if c == 45 {
        Some(KindView::Minus)
    } else if c == 42 {
        Some(KindView::Star)
    } else if c == 47 {
        Some(KindView::Slash)
    } else if c == 37 {
        Some(KindView::PercentSign)
    } else {
        None
    }
}

/// A token whose span starts at the current column.
pub open spec fn here(st: LexerState, kind: KindView) -> (Option<Result<TokenView, Error>>, LexerState) {
    (Some(Ok((span_from(st, st.column), kind))), st)
}

/// A two-byte token: takes the second byte and spans from the first.
pub open spec fn pair(bytes: Seq<u8>, st: LexerState, kind: KindView) -> (Option<Result<TokenView, Error>>, LexerState) {
    let st2 = next_byte(bytes, st).1;
    (Some(Ok((span_from(st2, st.column), kind))), st2)
}

/// The next step of the lexer from state `st` over `bytes`: `None` at the
/// end of the input or at a NUL byte, else a token or an error, and the
/// state after it.
pub open spec fn next_token_spec(bytes: Seq<u8>, st: LexerState) -> (Option<Result<TokenView, Error>>, LexerState) {
    let (b, st1) = next_byte(bytes, st);
    let p = peek_byte(bytes, st1);
    match b {
        None => (None, st1),
        Some(c) => if is_space_byte(c) {
            let token = (span_from(st1, st1.column), KindView::Whitespace);
            let st2 = if c == 10 {
                LexerState { line: st1.line + 1, column: 0, ..st1 }
            } else {
                st1
            };
            (Some(Ok(token)), st2)
        } else if c == 45 && (p matches Some(d) && is_digit_byte(d)) {
            let (d, st2) = next_byte(bytes, st1);
            let (r, st3) = form_number_spec(bytes, st2, -(d->0 - 48), st1.column);
            (Some(r), st3)
        } else if is_digit_byte(c) {
            let (r, st2) = form_number_spec(bytes, st1, c - 48, st1.column);
            (Some(r), st2)
        } else if c == 39 || c == 34 {
            let (r, st2) = form_string_spec(bytes, st1, c);
            (Some(r), st2)
        } else if is_letter_byte(c) || c == 95 {
            let (r, st2) = form_word_spec(bytes, st1, c as char);
            (Some(r), st2)
        } else if single_byte_kind(c) is Some {
            here(st1, single_byte_kind(c)->0)
        } else if c == 33 && p == Some(61u8) {
            pair(bytes, st1, KindView::ExclamationEqualSign)
        } else if c == 61 {
            here(st1, KindView::EqualSign)
        } else if c == 40 {
            here(st1, KindView::LeftParenthesis)
        } else if c == 41 {
            here(st1, KindView::RightParenthesis)
        } else if c == 123 {
            here(st1, KindView::LeftCurlyBrace)
        } else if c == 125 {
            here(st1, KindView::RightCurlyBrace)
        } else if c == 60 && p == Some(61u8) {
            pair(bytes, st1, KindView::LessThanEqualSign)
        } else if c == 60 {
            here(st1, KindView::LeftAngleBracket)
        } else if c == 62 && p == Some(61u8) {
            pair(bytes, st1, KindView::GreaterThanEqualSign)
        } else if c == 62 {
            here(st1, KindView::RightAngleBracket)
        } else if c == 44 {
            here(st1, KindView::Comma)
        } else if c == 58 && p == Some(61u8) {
            pair(bytes, st1, KindView::ColonEqualSign)
        } else if c == 58 && p == Some(58u8) {
            pair(bytes, st1, KindView::ColonColon)
        } else if c == 58 {
            here(st1, KindView::Colon)
        } else if c == 0 {
            (None, st1)
        } else {
            (Some(Err(Error::UnrecognizedCharacter(span_from(st1, st1.column)))), st1)
        },
    }
}

/// The view of a lexing step.
pub open spec fn result_view(r: Option<LexResult>) -> Option<Result<TokenView, Error>> {
    match r {
        None => None,
        Some(Ok((span, kind))) => Some(Ok((span, kind@))),
        Some(Err(e)) => Some(Err(e)),
    }
}

/// The byte lexer.
pub struct Lexer<'a> {
    bytes: &'a [u8],
    index: usize,
    current_line: usize,
    current_column: usize,
}

impl<'a> Lexer<'a> {
    /// The input bytes.
    pub closed spec fn bytes(&self) -> Seq<u8> {
        self.bytes@
    }

    /// Where the lexer stands.
    pub closed spec fn state(&self) -> LexerState {
        LexerState {
            index: self.index as int,
            line: self.current_line as int,
            column: self.current_column as int,
        }
    }

    /// The line is at least one; the column and the line number are at most
    /// what the index allows.
    pub closed spec fn wf(&self) -> bool {
        &&& 1 <= self.current_line <= self.index + 1
        &&& self.current_column <= self.index
        &&& self.bytes@.len() < usize::MAX
    }

    /// A lexer at the start of `bytes`: line one, column zero.
    pub fn new(bytes: &'a [u8]) -> (res: Self)
        requires
            bytes@.len() < usize::MAX,
        ensures
            res.bytes() == bytes@,
            res.state() == (LexerState { index: 0, line: 1, column: 0 }),
            res.wf(),
    {
        Self { bytes, index: 0, current_line: 1, current_column: 0 }
    }

    /// The next token of the input, or the error found instead of it; `None`
    /// at the end of the input or at a NUL byte (`Iterator::next`).
    pub fn next_token(&mut self) -> (res: Option<LexResult>)
        requires
            old(self).wf(),
            old(self).state().index < usize::MAX,
        ensures
            final(self).wf(),
            final(self).bytes() == old(self).bytes(),
            (result_view(res), final(self).state()) == next_token_spec(old(self).bytes(), old(self).state()),
    {
        let c = match self.next() {
            Some(c) => c,
            None => return None,
        };
        let p = self.peek();
        if c == 9 || c == 10 || c == 12 || c == 13 || c == 32 {
            let token = (self.make_span(self.current_column), TokenKind::Whitespace);
            if c == 10 {
                self.current_line = self.current_line + 1;
                self.current_column = 0;
            }
            Some(Ok(token))
        } else if c == 45 && (match p {
            Some(d) => 48 <= d && d <= 57,
            None => false,
        }) {
            let start_column = self.current_column;
            let d = match self.next() {
                Some(d) => d,
                None => 48,
            };
            let digit: i64 = (d - 48) as i64;
            Some(self.form_number(-digit, start_column))
        } else if 48 <= c && c <= 57 {
            Some(self.form_number((c - 48) as i64, self.current_column))
        } else if c == 39 || c == 34 {
            Some(self.form_string(c))
        } else if (65 <= c && c <= 90) || (97 <= c && c <= 122) || c == 95 {
            Some(self.form_word(c as char))
        } else if c == 43 {
            Some(Ok((self.make_span(self.current_column), TokenKind::Plus)))
        } else if c == 45 {
            Some(Ok((self.make_span(self.current_column), TokenKind::Minus)))
        } else if c == 42 {
            Some(Ok((self.make_span(self.current_column), TokenKind::Star)))
        } else if c == 47 {
            Some(Ok((self.make_span(self.current_column), TokenKind::Slash)))
        } else if c == 37 {
            Some(Ok((self.make_span(self.current_column), TokenKind::PercentSign)))
        } else if c == 33 && p == Some(61u8) {
            Some(Ok(self.pair(TokenKind::ExclamationEqualSign)))
        } else if c == 61 {
            Some(Ok((self.make_span(self.current_column), TokenKind::EqualSign)))
        } else if c == 40 {
            Some(Ok((self.make_span(self.current_column), TokenKind::LeftParenthesis)))
        } else if c == 41 {
            Some(Ok((self.make_span(self.current_column), TokenKind::RightParenthesis)))
        } else if c == 123 {
            Some(Ok((self.make_span(self.current_column), TokenKind::LeftCurlyBrace)))
        } else if c == 125 {
            Some(Ok((self.make_span(self.current_column), TokenKind::RightCurlyBrace)))
        } else if c == 60 && p == Some(61u8) {
            Some(Ok(self.pair(TokenKind::LessThanEqualSign)))
        } else if c == 60 {
            Some(Ok((self.make_span(self.current_column), TokenKind::LeftAngleBracket)))
        } else if c == 62 && p == Some(61u8) {
            Some(Ok(self.pair(TokenKind::GreaterThanEqualSign)))
        } else if c == 62 {
            Some(Ok((self.make_span(self.current_column), TokenKind::RightAngleBracket)))
        } else if c == 44 {
            Some(Ok((self.make_span(self.current_column), TokenKind::Comma)))
        } else if c == 58 && p == Some(61u8) {
            Some(Ok(self.pair(TokenKind::ColonEqualSign)))
        } else if c == 58 && p == Some(58u8) {
            Some(Ok(self.pair(TokenKind::ColonColon)))
        } else if c == 58 {
            Some(Ok((self.make_span(self.current_column), TokenKind::Colon)))
        } else if c == 0 {
            None
        } else {
            Some(Err(Error::UnrecognizedCharacter(self.make_span(self.current_column))))
        }
    }

    /// A two-byte token of kind `kind` whose first byte has just been read.
    fn pair(&mut self, kind: TokenKind) -> (res: Token)
        requires
            old(self).wf(),
            0 <= old(self).state().index < old(self).bytes().len(),
        ensures
            final(self).wf(),
            final(self).bytes() == old(self).bytes(),
            final(self).state() == next_byte(old(self).bytes(), old(self).state()).1,
            res.0 == span_from(final(self).state(), old(self).state().column),
            res.1 == kind,
    {
        let start_column = self.current_column;
        self.next();
        (self.make_span(start_column), kind)
    }

    /// A number whose first digit has value `digit` and which started at
    /// `start_column`.
    fn form_number(&mut self, digit: i64, start_column: usize) -> (res: LexResult)
        requires
            old(self).wf(),
            0 <= old(self).state().index <= old(self).bytes().len(),
            -9 <= digit <= 9,
        ensures
            final(self).wf(),
            final(self).bytes() == old(self).bytes(),
            (result_view(Some(res)), final(self).state()) == ({
                let (r, st) = form_number_spec(old(self).bytes(), old(self).state(), digit as int, start_column as int);
                (Some(r), st)
            }),
    {
        let mut number: i64 = digit;
        let mut floating_point: Option<i64> = None;
        loop
            invariant_except_break
                self.wf(),
                self.bytes() == old(self).bytes(),
                0 <= self.state().index <= self.bytes().len(),
                floating_point matches Some(dec) ==> dec >= 0,
                number_loop(self.bytes(), self.state(), number as int, match floating_point {
                    Some(dec) => Some(dec as int),
                    None => None,
                }, start_column as int) == number_loop(
                    old(self).bytes(),
                    old(self).state(),
                    digit as int,
                    None,
                    start_column as int,
                ),
            ensures
                self.wf(),
                self.bytes() == old(self).bytes(),
                number_loop(
                    old(self).bytes(),
                    old(self).state(),
                    digit as int,
                    None,
                    start_column as int,
                ) == (Ok::<(int, Option<int>), Error>((number as int, match floating_point {
                    Some(dec) => Some(dec as int),
                    None => None,
                })), self.state()),
            decreases self.bytes().len() - self.state().index,
        {
            let next = match self.peek() {
                Some(next) => next,
                None => break,
            };
            if 48 <= next && next <= 57 {
                let d: i64 = (next - 48) as i64;
                match floating_point {
                    Some(decimals) => {
                        if decimals > (i64::MAX - d) / 10 {
                            proof {
                                assert(decimals * 10 + d > i64::MAX) by (nonlinear_arith)
                                    requires decimals > (i64::MAX - d) / 10, 0 <= d <= 9;
                            }
                            return Err(Error::FloatOverflow(self.make_span(start_column)));
                        }
                        proof {
                            assert(decimals * 10 + d <= i64::MAX) by (nonlinear_arith)
                                requires decimals <= (i64::MAX - d) / 10, 0 <= d <= 9, decimals >= 0;
                        }
                        floating_point = Some(decimals * 10 + d);
                    },
                    None => {
                        if number < -922337203685477580i64 || number > (i64::MAX - d) / 10 {
                            proof {
                                assert(number * 10 < i64::MIN || number * 10 + d > i64::MAX) by (nonlinear_arith)
                                    requires number < -922337203685477580int || number > (i64::MAX - d) / 10, 0 <= d <= 9;
                            }
                            return Err(Error::IntegerOverflow(self.make_span(start_column)));
                        }
                        proof {
                            assert(-9223372036854775800int <= number * 10) by (nonlinear_arith)
                                requires -922337203685477580int <= number;
                            assert(number * 10 <= i64::MAX - d) by (nonlinear_arith)
                                requires number <= (i64::MAX - d) / 10, 0 <= d <= 9;
                        }
                        number = number * 10 + d;
                    },
                }
            } else if next == 46 && floating_point.is_none() {
                floating_point = Some(0);
            } else {
                break;
            }
            self.next();
        }
        let span = self.make_span(start_column);
        match floating_point {
            Some(decimals) => Ok((span, TokenKind::FloatLiteral { whole: number, decimals })),
            None => Ok((span, TokenKind::IntegerLiteral(number))),
        }
    }

    /// A string literal opened by `string_start`, which has just been read.
    fn form_string(&mut self, string_start: u8) -> (res: LexResult)
        requires
            old(self).wf(),
            0 <= old(self).state().index <= old(self).bytes().len(),
        ensures
            final(self).wf(),
            final(self).bytes() == old(self).bytes(),
            (result_view(Some(res)), final(self).state()) == ({
                let (r, st) = form_string_spec(old(self).bytes(), old(self).state(), string_start);
                (Some(r), st)
            }),
    {
        let start_line = self.current_line;
        let start_column = self.current_column;
        let mut string = String::new();
        let mut is_terminated = false;
        loop
            invariant_except_break
                self.wf(),
                self.bytes() == old(self).bytes(),
                0 <= self.state().index <= self.bytes().len(),
                !is_terminated,
                string_loop(self.bytes(), self.state(), string_start, string@) == string_loop(
                    old(self).bytes(),
                    old(self).state(),
                    string_start,
                    Seq::empty(),
                ),
            ensures
                self.wf(),
                self.bytes() == old(self).bytes(),
                string_loop(old(self).bytes(), old(self).state(), string_start, Seq::empty()) == (
                    string@,
                    is_terminated,
                    self.state(),
                ),
            decreases self.bytes().len() - self.state().index,
        {
            let next = match self.peek() {
                Some(next) => next,
                None => break,
            };
            if next == string_start {
                self.next();
                is_terminated = true;
                break;
            } else {
                push_char(&mut string, next as char);
                self.next();
            }
        }
        let span = Span::new(start_line, start_column, self.current_line, self.current_column);
        if !is_terminated {
            Err(Error::UnterminatedString(span))
        } else {
            Ok((span, TokenKind::StringLiteral(string)))
        }
    }

    /// A word that starts with `letter`, which has just been read.
    fn form_word(&mut self, letter: char) -> (res: LexResult)
        requires
            old(self).wf(),
            0 <= old(self).state().index <= old(self).bytes().len(),
        ensures
            final(self).wf(),
            final(self).bytes() == old(self).bytes(),
            (result_view(Some(res)), final(self).state()) == ({
                let (r, st) = form_word_spec(old(self).bytes(), old(self).state(), letter);
                (Some(r), st)
            }),
    {
        let start_column = self.current_column;
        let mut word: Vec<char> = Vec::new();
        word.push(letter);
        loop
            invariant_except_break
                self.wf(),
                self.bytes() == old(self).bytes(),
                0 <= self.state().index <= self.bytes().len(),
                word_loop(self.bytes(), self.state(), word@) == word_loop(
                    old(self).bytes(),
                    old(self).state(),
                    seq![letter],
                ),
            ensures
                self.wf(),
                self.bytes() == old(self).bytes(),
                word_loop(old(self).bytes(), old(self).state(), seq![letter]) == (word@, self.state()),
            decreases self.bytes().len() - self.state().index,
        {
            let next = match self.peek() {
                Some(next) => next,
                None => break,
            };
            if next == 9 || next == 10 || next == 12 || next == 13 || next == 32 {
                break;
            } else if !((33 <= next && next <= 47) || (58 <= next && next <= 64) || (91 <= next && next
                <= 96) || (123 <= next && next <= 126)) || next == 95 {
                self.next();
                word.push(next as char);
            } else {
                break;
            }
        }
        let span = self.make_span(start_column);
        let n = word.len();
        let kind = if chars_match(&word, 0, n, "Void") {
            TokenKind::Void
        } else if chars_match(&word, 0, n, "Any") {
            TokenKind::Any
        } else if chars_match(&word, 0, n, "Int") {
            TokenKind::Int
        } else if chars_match(&word, 0, n, "Float") {
            TokenKind::Float
        } else if chars_match(&word, 0, n, "Boolean") {
            TokenKind::Boolean
        } else if chars_match(&word, 0, n, "String") {
            TokenKind::String
        } else if chars_match(&word, 0, n, "true") {
            TokenKind::BooleanLiteral(true)
        } else if chars_match(&word, 0, n, "false") {
            TokenKind::BooleanLiteral(false)
        } else if chars_match(&word, 0, n, "not") {
            TokenKind::Not
        } else if chars_match(&word, 0, n, "or") {
            TokenKind::Or
        } else if chars_match(&word, 0, n, "and") {
            TokenKind::And
        } else if chars_match(&word, 0, n, "let") {
            TokenKind::Let
        } else if chars_match(&word, 0, n, "if") {
            TokenKind::If
        } else if chars_match(&word, 0, n, "then") {
            TokenKind::Then
        } else if chars_match(&word, 0, n, "else") {
            TokenKind::Else
        } else if chars_match(&word, 0, n, "while") {
            TokenKind::While
        } else if chars_match(&word, 0, n, "define") {
            TokenKind::Define
        } else {
            TokenKind::Identifier(string_of(&word))
        };
        proof {
            assert(word@.subrange(0, n as int) =~= word@);
        }
        Ok((span, kind))
    }

    /// The byte at the lexer's index, if there is one.
    fn peek(&self) -> (res: Option<u8>)
        ensures
            res == peek_byte(self.bytes(), self.state()),
    {
        if self.index < self.bytes.len() {
            Some(self.bytes[self.index])
        } else {
            None
        }
    }

    /// Takes the byte at the index, if there is one; moves the index and
    /// the column on by one either way.
    fn next(&mut self) -> (res: Option<u8>)
        requires
            old(self).wf(),
            old(self).state().index < usize::MAX,
        ensures
            final(self).wf(),
            final(self).bytes() == old(self).bytes(),
            (res, final(self).state()) == next_byte(old(self).bytes(), old(self).state()),
    {
        let res = self.peek();
        self.index = self.index + 1;
        self.current_column = self.current_column + 1;
        res
    }

    /// The span on the current line from `start_column` to the current
    /// column.
    fn make_span(&self, start_column: usize) -> (res: Span)
        ensures
            res == span_from(self.state(), start_column as int),
    {
        Span::new(self.current_line, start_column, self.current_line, self.current_column)
    }
}

/// The string of the characters `chars`.
fn string_of(chars: &Vec<char>) -> (res: String)
    ensures
        res@ == chars@,
{
    let mut res = String::new();
    let mut i: usize = 0;
    while i < chars.len()
        invariant
            i <= chars@.len(),
            res@ == chars@.subrange(0, i as int),
        decreases chars@.len() - i,
    {
        push_char(&mut res, chars[i]);
        i = i + 1;
        proof {
            assert(res@ =~= chars@.subrange(0, i as int));
        }
    }
    proof {
        assert(chars@.subrange(0, chars@.len() as int) =~= chars@);
    }
    res
}

/// Different words never give the same kind: each type name, literal and
/// keyword has a kind of its own, and any other word is an identifier that
/// keeps the word as its name.
pub proof fn lemma_word_kinds_are_distinct(w1: Seq<char>, w2: Seq<char>)
    ensures
        word_kind(w1) == word_kind(w2) ==> w1 == w2,
        word_kind(w1) matches KindView::Identifier(name) ==> name == w1,
{
}

/// Each character that stands alone as a token gives a kind of its own: two
/// different characters never give the same kind.
pub proof fn lemma_single_byte_kinds_are_distinct(c1: u8, c2: u8)
    ensures
        single_byte_kind(c1) is Some && single_byte_kind(c1) == single_byte_kind(c2) ==> c1 == c2,
{
}

} // verus!
