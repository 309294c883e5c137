//! The token stream the parser reads: white space and `//` comments are
//! skipped, and a character no token starts with is reported to the
//! compilation context and skipped too.

use vstd::prelude::*;

use crate::context::compilation_context::CompilationContext;
use crate::error::{EnviousDiagnostic, LexerDiagnosticKind};
use crate::parse::token_kind::TokenKind;
use crate::source::source::{text_bytes, Source, SourceId};
use crate::source::span::{SourcePos, Span, Spanned};
use crate::syntax::lexical_analysis::source_iter::{iter_next, iter_peek, IterState, SourceIter};
use crate::syntax::lexical_analysis::{continue_while_spec, in_class, lemma_continue_while_advances, CharClass};
use crate::text::{alphabetic_spec, is_alphabetic, is_alphanumeric, is_ascii_digit, is_ascii_digit_spec, is_whitespace, whitespace_spec};

verus! {

/// A token of the stream: its kind and span.
pub type Token = Spanned<TokenKind>;

/// How far a cursor over `chars` has still to go: two steps per character
/// left, and one for the end-of-file marker until it is handed out.
pub open spec fn progress(chars: Seq<char>, st: IterState) -> int {
    2 * (chars.len() - st.index) + if st.reached_eof { 0int } else { 1int }
}

/// The cursor state `after` stands within `chars` and has gone further than
/// `before`.
pub open spec fn advanced(chars: Seq<char>, after: IterState, before: IterState) -> bool {
    0 <= after.index <= chars.len() && progress(chars, after) < progress(chars, before)
}

/// The token of kind `kind` over `start..end` of source `id`.
pub open spec fn stream_token(id: SourceId, start: int, end: int, kind: TokenKind) -> Token {
    Spanned { span: Span { source_id: id, start_pos: start as usize, end_pos: end as usize }, node: kind }
}

/// The kind of a word: a type name, a keyword, a boolean literal, or an
/// identifier.
pub open spec fn stream_word_kind(word: Seq<char>) -> TokenKind {
    if word == "Int"@ {
        TokenKind::IntType
    } else if word == "Bool"@ {
        TokenKind::BooleanType
    } else if word == "true"@ || word == "false"@ {
        TokenKind::Boolean
    } else if word == "not"@ {
        TokenKind::Not
    } else if word == "or"@ {
        TokenKind::Or
    } else if word == "and"@ {
        TokenKind::And
    } else if word == "let"@ {
        TokenKind::Let
    } else if word == "if"@ {
        TokenKind::If
    } else if word == "then"@ {
        TokenKind::Then
    } else if word == "else"@ {
        TokenKind::Else
    } else if word == "while"@ {
        TokenKind::While
    } else if word == "define"@ {
        TokenKind::Define
    } else if word == "return"@ {
        TokenKind::Return
    } else {
        TokenKind::Identifer
    }
}

/// The kind of a token of the single character `c`, for the characters
/// that always stand alone.
pub open spec fn stream_single_kind(c: char) -> Option<TokenKind> {
    if c == '(' {
        Some(TokenKind::LeftParenthesis)
    } else if c == ')' {
        Some(TokenKind::RightParenthesis)
    } else if c == '{' {
        Some(TokenKind::LeftCurlyBrace)
    } else if c == '}' {
        Some(TokenKind::RightCurlyBrace)
    } else if c == '+' {
        Some(TokenKind::Plus)
    } else if c == '-' {
        Some(TokenKind::Minus)
    } else if c == '*' {
        Some(TokenKind::Star)
    } else if c == '/' {
        Some(TokenKind::Slash)
    } else if c == '%' {
        Some(TokenKind::Percent)
    } else if c == '=' {
        Some(TokenKind::Equal)
    } else if c == '.' {
        Some(TokenKind::Period)
    } else if c == ',' {
        Some(TokenKind::Comma)
    } else if c == ';' {
        Some(TokenKind::SemiColon)
    } else {
        None
    }
}

/// The token that starts at `start` and takes in the next character too when
/// it is `expected` (`consumed`), else stays one character long (`default`).
pub open spec fn stream_optional(
    chars: Seq<char>,
    source_len: int,
    id: SourceId,
    st: IterState,
    start: int,
    expected: char,
    consumed: TokenKind,
    default: TokenKind,
) -> (Token, IterState) {
    let (peeked, st1) = iter_peek(chars, source_len, st);
    match peeked {
        Some((end, ch)) => if ch == expected {
            let (_, st2) = iter_next(chars, source_len, st1);
            (stream_token(id, start, end + 1, consumed), st2)
        } else {
            (stream_token(id, start, start + 1, default), st1)
        },
        None => (stream_token(id, start, start + 1, default), st1),
    }
}

/// The next token from cursor state `st` of a source of id `id`, the state
/// after it, and the spans of the characters no token starts with that were
/// skipped on the way. White space and `//` comments (up to and with the line
/// break) are skipped; numbers and words run as long as their characters
/// do; `<=`, `>=` and `::` are read as one token; the end-of-file marker
/// gives an empty `EndOfFile` token.
pub open spec fn stream_next(chars: Seq<char>, source_len: int, id: SourceId, st: IterState) -> (
    Option<Token>,
    IterState,
    Seq<Span>,
)
    decreases progress(chars, st),
{
    if !(0 <= st.index <= chars.len()) {
        (None, st, Seq::empty())
    } else {
        let (item, st1) = iter_next(chars, source_len, st);
        match item {
            None => (None, st1, Seq::empty()),
            Some((start, ch)) => {
                if whitespace_spec(ch) {
                    let (_, st2) = continue_while_spec(chars, source_len, st1, CharClass::Whitespace, start);
                    if advanced(chars, st2, st) {
                        stream_next(chars, source_len, id, st2)
                    } else {
                        (None, st2, Seq::empty())
                    }
                } else if ch == '/' && iter_peek(chars, source_len, st1).0 == Some((st1.index, '/')) {
                    let st1a = iter_peek(chars, source_len, st1).1;
                    let (_, st2) = continue_while_spec(chars, source_len, st1a, CharClass::NotNewline, start);
                    let (_, st3) = iter_next(chars, source_len, st2);
                    if advanced(chars, st3, st) {
                        stream_next(chars, source_len, id, st3)
                    } else {
                        (None, st3, Seq::empty())
                    }
                } else {
                    let st1 = if ch == '/' { iter_peek(chars, source_len, st1).1 } else { st1 };
                    if is_ascii_digit_spec(ch) {
                        let (end, st2) = continue_while_spec(chars, source_len, st1, CharClass::Digit, start);
                        (Some(stream_token(id, start, end + 1, TokenKind::Int)), st2, Seq::empty())
                    } else if alphabetic_spec(ch) {
                        let (end, st2) = continue_while_spec(chars, source_len, st1, CharClass::Word, start);
                        (
                            Some(stream_token(id, start, end + 1, stream_word_kind(chars.subrange(start, end + 1)))),
                            st2,
                            Seq::empty(),
                        )
                    } else if ch == '<' {
                        let (t, st2) = stream_optional(
                            chars, source_len, id, st1, start, '=', TokenKind::LessThanEqual, TokenKind::LeftAngleBracket);
                        (Some(t), st2, Seq::empty())
                    } else if ch == '>' {
                        let (t, st2) = stream_optional(
                            chars, source_len, id, st1, start, '=', TokenKind::GreaterThanEqual, TokenKind::RightAngleBracket);
                        (Some(t), st2, Seq::empty())
                    } else if ch == ':' {
                        let (t, st2) = stream_optional(
                            chars, source_len, id, st1, start, ':', TokenKind::ColonColon, TokenKind::Colon);
                        (Some(t), st2, Seq::empty())
                    } else if ch == '\0' {
                        (Some(stream_token(id, start, start, TokenKind::EndOfFile)), st1, Seq::empty())
                    } else {
                        match stream_single_kind(ch) {
                            Some(kind) => (Some(stream_token(id, start, start + 1, kind)), st1, Seq::empty()),
                            None => if advanced(chars, st1, st) {
                                let (t, st2, skipped) = stream_next(chars, source_len, id, st1);
                                (t, st2, seq![Span { source_id: id, start_pos: start as usize, end_pos: (start + 1) as usize }] + skipped)
                            } else {
                                (None, st1, Seq::empty())
                            },
                        }
                    }
                }
            },
        }
    }
}

/// The diagnostics that report the characters at `spans`.
pub open spec fn unknown_characters(spans: Seq<Span>) -> Seq<EnviousDiagnostic> {
    spans.map_values(|s: Span| EnviousDiagnostic::LexerDiagnostic(LexerDiagnosticKind::UnknownCharacter(s)))
}

/// Consuming characters never moves a cursor back.
pub proof fn lemma_continue_while_progress(chars: Seq<char>, source_len: int, st: IterState, class: CharClass, end: int)
    requires
        0 <= st.index <= chars.len(),
    ensures
        progress(chars, continue_while_spec(chars, source_len, st, class, end).1) <= progress(chars, st),
        0 <= continue_while_spec(chars, source_len, st, class, end).1.index <= chars.len(),
    decreases chars.len() - st.index, if st.reached_eof { 0int } else { 1int },
{
    let (peeked, st1) = iter_peek(chars, source_len, st);
    if let Some((next_pos, ch)) = peeked {
        if in_class(class, ch) {
            let (_, st2) = iter_next(chars, source_len, st1);
            lemma_continue_while_progress(chars, source_len, st2, class, next_pos);
        }
    }
}

/// Reading a token never moves the stream back, and a token handed out
/// moves it forward; an identifier token lies within the text.
pub proof fn lemma_stream_progress(chars: Seq<char>, source_len: int, id: SourceId, st: IterState)
    requires
        0 <= st.index <= chars.len(),
        chars.len() <= source_len < usize::MAX,
        st.reached_eof ==> st.index == chars.len(),
    ensures
        ({
            let (t, st2, _) = stream_next(chars, source_len, id, st);
            &&& 0 <= st2.index <= chars.len()
            &&& (st2.reached_eof ==> st2.index == chars.len())
            &&& progress(chars, st2) <= progress(chars, st)
            &&& (t is Some ==> progress(chars, st2) < progress(chars, st))
            &&& (t is Some && t->0.node == TokenKind::Identifer ==> t->0.span.start_pos <= t->0.span.end_pos <= chars.len())
        }),
    decreases progress(chars, st),
{
    let (item, st1) = iter_next(chars, source_len, st);
    if let Some((start, ch)) = item {
        if whitespace_spec(ch) {
            lemma_continue_while_progress(chars, source_len, st1, CharClass::Whitespace, start);
            lemma_continue_while_eof(chars, source_len, st1, CharClass::Whitespace, start);
            let (_, st2) = continue_while_spec(chars, source_len, st1, CharClass::Whitespace, start);
            if advanced(chars, st2, st) {
                lemma_stream_progress(chars, source_len, id, st2);
            }
        } else if ch == '/' && iter_peek(chars, source_len, st1).0 == Some((st1.index, '/')) {
            let st1a = iter_peek(chars, source_len, st1).1;
            lemma_continue_while_progress(chars, source_len, st1a, CharClass::NotNewline, start);
            lemma_continue_while_eof(chars, source_len, st1a, CharClass::NotNewline, start);
            let (_, st2) = continue_while_spec(chars, source_len, st1a, CharClass::NotNewline, start);
            let (_, st3) = iter_next(chars, source_len, st2);
            if advanced(chars, st3, st) {
                lemma_stream_progress(chars, source_len, id, st3);
            }
        } else {
            let st1 = if ch == '/' { iter_peek(chars, source_len, st1).1 } else { st1 };
            if is_ascii_digit_spec(ch) {
                lemma_continue_while_progress(chars, source_len, st1, CharClass::Digit, start);
                lemma_continue_while_eof(chars, source_len, st1, CharClass::Digit, start);
            } else if alphabetic_spec(ch) {
                lemma_continue_while_progress(chars, source_len, st1, CharClass::Word, start);
                lemma_continue_while_eof(chars, source_len, st1, CharClass::Word, start);
                if start < chars.len() {
                    lemma_continue_while_advances(chars, source_len, st1, CharClass::Word, start);
                }
            } else if stream_single_kind(ch) is None && ch != '<' && ch != '>' && ch != ':' && ch != '\0' {
                if advanced(chars, st1, st) {
                    lemma_stream_progress(chars, source_len, id, st1);
                }
            }
        }
    }
}

/// Once the stream hands out nothing, it stands at the end of the text with
/// the end-of-file marker handed out, and from there it hands out nothing
/// again and stays where it is: after the last token, `None` for ever.
pub proof fn lemma_stream_stays_ended(chars: Seq<char>, source_len: int, id: SourceId, st: IterState)
    requires
        0 <= st.index <= chars.len(),
        chars.len() <= source_len < usize::MAX,
        st.reached_eof ==> st.index == chars.len(),
    ensures
        ({
            let (t, st2, _) = stream_next(chars, source_len, id, st);
            t is None ==> {
                &&& st2.index == chars.len()
                &&& st2.reached_eof
                &&& stream_next(chars, source_len, id, st2) == (None::<Token>, st2, Seq::<Span>::empty())
            }
        }),
    decreases progress(chars, st),
{
    let (item, st1) = iter_next(chars, source_len, st);
    if let Some((start, ch)) = item {
        if whitespace_spec(ch) {
            lemma_continue_while_progress(chars, source_len, st1, CharClass::Whitespace, start);
            lemma_continue_while_eof(chars, source_len, st1, CharClass::Whitespace, start);
            let (_, st2) = continue_while_spec(chars, source_len, st1, CharClass::Whitespace, start);
            assert(advanced(chars, st2, st));
            lemma_stream_stays_ended(chars, source_len, id, st2);
        } else if ch == '/' && iter_peek(chars, source_len, st1).0 == Some((st1.index, '/')) {
            let st1a = iter_peek(chars, source_len, st1).1;
            lemma_continue_while_progress(chars, source_len, st1a, CharClass::NotNewline, start);
            lemma_continue_while_eof(chars, source_len, st1a, CharClass::NotNewline, start);
            let (_, st2) = continue_while_spec(chars, source_len, st1a, CharClass::NotNewline, start);
            let (_, st3) = iter_next(chars, source_len, st2);
            assert(advanced(chars, st3, st));
            lemma_stream_stays_ended(chars, source_len, id, st3);
        } else {
            let st1 = if ch == '/' { iter_peek(chars, source_len, st1).1 } else { st1 };
            if !is_ascii_digit_spec(ch) && !alphabetic_spec(ch) && ch != '<' && ch != '>' && ch != ':' && ch != '\0'
                && stream_single_kind(ch) is None {
                assert(advanced(chars, st1, st));
                lemma_stream_stays_ended(chars, source_len, id, st1);
            }
        }
    }
}

/// The end-of-file token of the end marker (the one placed at the length of
/// the source) is the last token: the stream then stands at the end and
/// hands out nothing more.
pub proof fn lemma_end_marker_is_last(chars: Seq<char>, source_len: int, id: SourceId, st: IterState)
    requires
        0 <= st.index <= chars.len(),
        chars.len() <= source_len < usize::MAX,
        st.reached_eof ==> st.index == chars.len(),
    ensures
        ({
            let (t, st2, _) = stream_next(chars, source_len, id, st);
            (t matches Some(tok) && tok.node == TokenKind::EndOfFile && tok.span.start_pos == source_len) ==> {
                &&& st2.index == chars.len()
                &&& st2.reached_eof
                &&& stream_next(chars, source_len, id, st2) == (None::<Token>, st2, Seq::<Span>::empty())
            }
        }),
    decreases progress(chars, st),
{
    let (item, st1) = iter_next(chars, source_len, st);
    if let Some((start, ch)) = item {
        if whitespace_spec(ch) {
            lemma_continue_while_progress(chars, source_len, st1, CharClass::Whitespace, start);
            lemma_continue_while_eof(chars, source_len, st1, CharClass::Whitespace, start);
            let (_, st2) = continue_while_spec(chars, source_len, st1, CharClass::Whitespace, start);
            assert(advanced(chars, st2, st));
            lemma_end_marker_is_last(chars, source_len, id, st2);
        } else if ch == '/' && iter_peek(chars, source_len, st1).0 == Some((st1.index, '/')) {
            let st1a = iter_peek(chars, source_len, st1).1;
            lemma_continue_while_progress(chars, source_len, st1a, CharClass::NotNewline, start);
            lemma_continue_while_eof(chars, source_len, st1a, CharClass::NotNewline, start);
            let (_, st2) = continue_while_spec(chars, source_len, st1a, CharClass::NotNewline, start);
            let (_, st3) = iter_next(chars, source_len, st2);
            assert(advanced(chars, st3, st));
            lemma_end_marker_is_last(chars, source_len, id, st3);
        } else {
            let st1 = if ch == '/' { iter_peek(chars, source_len, st1).1 } else { st1 };
            if !is_ascii_digit_spec(ch) && !alphabetic_spec(ch) && ch != '<' && ch != '>' && ch != ':' && ch != '\0'
                && stream_single_kind(ch) is None {
                assert(advanced(chars, st1, st));
                lemma_end_marker_is_last(chars, source_len, id, st1);
            }
        }
    }
}

/// White space is skipped: the stream never hands out a whitespace token.
pub proof fn lemma_stream_skips_whitespace(chars: Seq<char>, source_len: int, id: SourceId, st: IterState)
    requires
        0 <= st.index <= chars.len(),
        chars.len() <= source_len < usize::MAX,
        st.reached_eof ==> st.index == chars.len(),
    ensures
        ({
            let t = stream_next(chars, source_len, id, st).0;
            t matches Some(tok) ==> tok.node != TokenKind::Whitespace
        }),
    decreases progress(chars, st),
{
    let (item, st1) = iter_next(chars, source_len, st);
    if let Some((start, ch)) = item {
        if whitespace_spec(ch) {
            lemma_continue_while_progress(chars, source_len, st1, CharClass::Whitespace, start);
            lemma_continue_while_eof(chars, source_len, st1, CharClass::Whitespace, start);
            let (_, st2) = continue_while_spec(chars, source_len, st1, CharClass::Whitespace, start);
            assert(advanced(chars, st2, st));
            lemma_stream_skips_whitespace(chars, source_len, id, st2);
        } else if ch == '/' && iter_peek(chars, source_len, st1).0 == Some((st1.index, '/')) {
            let st1a = iter_peek(chars, source_len, st1).1;
            lemma_continue_while_progress(chars, source_len, st1a, CharClass::NotNewline, start);
            lemma_continue_while_eof(chars, source_len, st1a, CharClass::NotNewline, start);
            let (_, st2) = continue_while_spec(chars, source_len, st1a, CharClass::NotNewline, start);
            let (_, st3) = iter_next(chars, source_len, st2);
            assert(advanced(chars, st3, st));
            lemma_stream_skips_whitespace(chars, source_len, id, st3);
        } else {
            let st1 = if ch == '/' { iter_peek(chars, source_len, st1).1 } else { st1 };
            if !is_ascii_digit_spec(ch) && !alphabetic_spec(ch) && ch != '<' && ch != '>' && ch != ':' && ch != '\0'
                && stream_single_kind(ch) is None {
                assert(advanced(chars, st1, st));
                lemma_stream_skips_whitespace(chars, source_len, id, st1);
            }
        }
    }
}

/// Consuming characters keeps a cursor that has handed out the end marker
/// at the end of the text.
pub proof fn lemma_continue_while_eof(chars: Seq<char>, source_len: int, st: IterState, class: CharClass, end: int)
    requires
        0 <= st.index <= chars.len(),
        st.reached_eof ==> st.index == chars.len(),
    ensures
        ({
            let st2 = continue_while_spec(chars, source_len, st, class, end).1;
            st2.reached_eof ==> st2.index == chars.len()
        }),
    decreases chars.len() - st.index, if st.reached_eof { 0int } else { 1int },
{
    let (peeked, st1) = iter_peek(chars, source_len, st);
    if let Some((next_pos, ch)) = peeked {
        if in_class(class, ch) {
            let (_, st2) = iter_next(chars, source_len, st1);
            lemma_continue_while_eof(chars, source_len, st2, class, next_pos);
        }
    }
}

/// Reads the tokens of a source, reporting what it cannot read.
pub struct TokenStream<'source> {
    source: &'source Source,
    source_iter: SourceIter,
}

impl<'source> TokenStream<'source> {
    /// The cursor is consistent.
    pub closed spec fn wf(&self) -> bool {
        self.source_iter.wf()
    }

    /// The characters of the source.
    pub closed spec fn chars(&self) -> Seq<char> {
        self.source_iter.chars()
    }

    /// The byte length of the source.
    pub closed spec fn source_len(&self) -> int {
        self.source_iter.source_len()
    }

    /// The id of the source.
    pub closed spec fn source_id(&self) -> SourceId {
        self.source.id
    }

    /// Where the stream stands in the source.
    pub closed spec fn state(&self) -> IterState {
        self.source_iter.state()
    }

    /// What a consistent stream's cursor satisfies.
    pub proof fn lemma_wf(&self)
        requires
            self.wf(),
        ensures
            0 <= self.state().index <= self.chars().len(),
            self.chars().len() <= self.source_len() < usize::MAX,
            self.state().reached_eof ==> self.state().index == self.chars().len(),
    {
        self.source_iter.lemma_inv();
    }

    /// The byte length of the source: where its end-of-file marker stands.
    pub fn source_length(&self) -> (res: usize)
        ensures
            res == self.source_len(),
    {
        self.source_iter.source_length()
    }

    /// A stream at the start of `source`.
    pub fn new(source: &'source Source) -> (res: Self)
        requires
            text_bytes(source.text@).len() < usize::MAX,
        ensures
            res.chars() == source.text@,
            res.source_len() == text_bytes(source.text@).len(),
            res.source_id() == source.id,
            res.state() == (IterState { index: 0, reached_eof: false }),
            res.wf(),
    {
        Self { source, source_iter: SourceIter::new(source) }
    }

    /// The next token, or `None` once the source is used up; each character
    /// no token starts with on the way is reported to `ctx`.
    pub fn next_token(&mut self, ctx: &mut CompilationContext) -> (res: Option<Token>)
        requires
            old(self).wf(),
        ensures
            final(self).wf(),
            final(self).chars() == old(self).chars(),
            final(self).source_len() == old(self).source_len(),
            final(self).source_id() == old(self).source_id(),
            ({
                let (t, st, skipped) = stream_next(old(self).chars(), old(self).source_len(), old(self).source_id(), old(self).state());
                &&& res == t
                &&& final(self).state() == st
                &&& final(ctx).diagnostics() == old(ctx).diagnostics() + unknown_characters(skipped)
            }),
            final(ctx).sources() == old(ctx).sources(),
            final(ctx).symbols() == old(ctx).symbols(),
    {
        let ghost chars = self.chars();
        let ghost len = self.source_len();
        let ghost id = self.source_id();
        let ghost st0 = self.state();
        let ghost mut skipped: Seq<Span> = Seq::empty();
        loop
            invariant
                self.wf(),
                self.chars() == chars,
                self.source_len() == len,
                self.source_id() == id,
                chars == old(self).chars(),
                len == old(self).source_len(),
                id == old(self).source_id(),
                st0 == old(self).state(),
                ctx.diagnostics() == old(ctx).diagnostics() + unknown_characters(skipped),
                ctx.sources() == old(ctx).sources(),
                ctx.symbols() == old(ctx).symbols(),
                ({
                    let (t, st, rest) = stream_next(chars, len, id, self.state());
                    stream_next(chars, len, id, st0) == (t, st, skipped + rest)
                }),
            decreases progress(chars, self.state()),
        {
            proof {
                self.source_iter.lemma_inv();
                assert(skipped + Seq::<Span>::empty() =~= skipped);
            }
            let ghost st = self.state();
            let (start, ch) = match self.next() {
                Some(item) => item,
                None => return None,
            };
            proof {
                self.source_iter.lemma_inv();
                if 0 <= st.index < chars.len() {
                    assert(start < chars.len());
                } else {
                    assert(start == len);
                    assert(ch == '\0');
                }
            }
            if is_whitespace(ch) {
                proof {
                    lemma_continue_while_progress(chars, len, self.state(), CharClass::Whitespace, start as int);
                }
                self.continue_while(start, CharClass::Whitespace);
                continue;
            }
            if ch == '/' {
                let peeked = self.peek();
                if let Some((_, '/')) = peeked {
                    proof {
                        self.source_iter.lemma_inv();
                        lemma_continue_while_progress(chars, len, self.state(), CharClass::NotNewline, start as int);
                    }
                    self.continue_while(start, CharClass::NotNewline);
                    proof {
                        self.source_iter.lemma_inv();
                    }
                    self.next();
                    continue;
                }
                proof {
                    self.source_iter.lemma_inv();
                }
                return Some(self.single_character_token(start, TokenKind::Slash));
            }
            if is_ascii_digit(ch) {
                let span = self.continue_while(start, CharClass::Digit);
                return Some(Spanned::new(span, TokenKind::Int));
            }
            if is_alphabetic(ch) {
                let token = self.tokenize_word(start);
                return Some(token);
            }
            if ch == '<' {
                let token = self.optionally_continue(start, '=', TokenKind::LessThanEqual, TokenKind::LeftAngleBracket);
                return Some(token);
            }
            if ch == '>' {
                let token = self.optionally_continue(start, '=', TokenKind::GreaterThanEqual, TokenKind::RightAngleBracket);
                return Some(token);
            }
            if ch == ':' {
                let token = self.optionally_continue(start, ':', TokenKind::ColonColon, TokenKind::Colon);
                return Some(token);
            }
            if ch == '\0' {
                let span = self.make_span(start, start);
                return Some(Spanned::new(span, TokenKind::EndOfFile));
            }
            match single_kind(ch) {
                Some(kind) => {
                    return Some(self.single_character_token(start, kind));
                },
                None => {
                    let span = self.make_span(start, start + 1);
                    let ghost before = ctx.diagnostics();
                    ctx.emit_diagnostic(EnviousDiagnostic::LexerDiagnostic(LexerDiagnosticKind::UnknownCharacter(span)));
                    proof {
                        let grown = skipped.push(span);
                        assert(unknown_characters(grown) =~= unknown_characters(skipped).push(
                            EnviousDiagnostic::LexerDiagnostic(LexerDiagnosticKind::UnknownCharacter(span)),
                        ));
                        assert((old(ctx).diagnostics() + unknown_characters(skipped)).push(
                            EnviousDiagnostic::LexerDiagnostic(LexerDiagnosticKind::UnknownCharacter(span)),
                        ) =~= old(ctx).diagnostics() + unknown_characters(grown));
                        let (t, st2, rest) = stream_next(chars, len, id, self.state());
                        assert(skipped + (seq![span] + rest) =~= grown + rest);
                        skipped = grown;
                    }
                },
            }
        }
    }

    /// A word token (a type name, a keyword, a boolean literal or an
    /// identifier) from `start` on.
    fn tokenize_word(&mut self, start: SourcePos) -> (res: Token)
        requires
            old(self).wf(),
            start < old(self).chars().len(),
            old(self).state().index == start + 1,
        ensures
            final(self).wf(),
            final(self).chars() == old(self).chars(),
            final(self).source_len() == old(self).source_len(),
            final(self).source_id() == old(self).source_id(),
            ({
                let (end, st) = continue_while_spec(
                    old(self).chars(), old(self).source_len(), old(self).state(), CharClass::Word, start as int);
                res == stream_token(
                    old(self).source_id(),
                    start as int,
                    end + 1,
                    stream_word_kind(old(self).chars().subrange(start as int, end + 1)),
                ) && final(self).state() == st
            }),
    {
        proof {
            self.source_iter.lemma_inv();
        }
        let word_span = self.continue_while(start, CharClass::Word);
        proof {
            self.source_iter.lemma_inv();
        }
        let from = word_span.start_pos;
        let to = word_span.end_pos;
        let kind = if self.source_iter.text_matches(from, to, "Int") {
            TokenKind::IntType
        } else if self.source_iter.text_matches(from, to, "Bool") {
            TokenKind::BooleanType
        } else if self.source_iter.text_matches(from, to, "true") || self.source_iter.text_matches(from, to, "false") {
            TokenKind::Boolean
        } else if self.source_iter.text_matches(from, to, "not") {
            TokenKind::Not
        } else if self.source_iter.text_matches(from, to, "or") {
            TokenKind::Or
        } else if self.source_iter.text_matches(from, to, "and") {
            TokenKind::And
        } else if self.source_iter.text_matches(from, to, "let") {
            TokenKind::Let
        } else if self.source_iter.text_matches(from, to, "if") {
            TokenKind::If
        } else if self.source_iter.text_matches(from, to, "then") {
            TokenKind::Then
        } else if self.source_iter.text_matches(from, to, "else") {
            TokenKind::Else
        } else if self.source_iter.text_matches(from, to, "while") {
            TokenKind::While
        } else if self.source_iter.text_matches(from, to, "define") {
            TokenKind::Define
        } else if self.source_iter.text_matches(from, to, "return") {
            TokenKind::Return
        } else {
            TokenKind::Identifer
        };
        Spanned::new(word_span, kind)
    }

    /// Consumes the characters of `class` that follow; the span from `start`
    /// to just past the last one consumed.
    fn continue_while(&mut self, start: SourcePos, class: CharClass) -> (res: Span)
        requires
            old(self).wf(),
            start <= old(self).source_len(),
            start < old(self).chars().len() || start == old(self).source_len(),
            start <= old(self).state().index || old(self).state().reached_eof,
        ensures
            final(self).wf(),
            final(self).chars() == old(self).chars(),
            final(self).source_len() == old(self).source_len(),
            final(self).source_id() == old(self).source_id(),
            ({
                let (end, st) = continue_while_spec(
                    old(self).chars(), old(self).source_len(), old(self).state(), class, start as int);
                &&& res == Span { source_id: old(self).source_id(), start_pos: start, end_pos: (end + 1) as usize }
                &&& final(self).state() == st
                &&& start <= end
                &&& (end < old(self).chars().len() || end == old(self).source_len())
                &&& (end == start || end < old(self).chars().len() || class == CharClass::NotNewline)
            }),
    {
        let mut end = start;
        loop
            invariant_except_break
                self.wf(),
                self.chars() == old(self).chars(),
                self.source_len() == old(self).source_len(),
                self.source_id() == old(self).source_id(),
                start <= end,
                end < self.chars().len() || end == self.source_len(),
                start <= self.state().index || self.state().reached_eof,
                start <= self.source_len(),
                end == start || end < self.chars().len() || class == CharClass::NotNewline,
                continue_while_spec(self.chars(), self.source_len(), self.state(), class, end as int)
                    == continue_while_spec(
                    old(self).chars(), old(self).source_len(), old(self).state(), class, start as int),
            ensures
                self.wf(),
                self.chars() == old(self).chars(),
                self.source_len() == old(self).source_len(),
                self.source_id() == old(self).source_id(),
                start <= end,
                end < self.chars().len() || end == self.source_len(),
                end == start || end < self.chars().len() || class == CharClass::NotNewline,
                continue_while_spec(
                    old(self).chars(), old(self).source_len(), old(self).state(), class, start as int)
                    == (end as int, self.state()),
            decreases self.chars().len() - self.state().index, if self.state().reached_eof { 0int } else { 1int },
        {
            proof {
                self.source_iter.lemma_inv();
            }
            match self.peek() {
                Some((next_pos, ch)) => {
                    if char_in_class(class, ch) {
                        self.next();
                        end = next_pos;
                    } else {
                        break;
                    }
                },
                None => break,
            }
        }
        proof {
            self.source_iter.lemma_inv();
        }
        self.make_span(start, end + 1)
    }

    /// The token from `start` that takes in the next character too when it is
    /// `expected` (giving `consumed_kind`), else stays one character long
    /// (giving `default_kind`).
    fn optionally_continue(
        &mut self,
        start: SourcePos,
        expected: char,
        consumed_kind: TokenKind,
        default_kind: TokenKind,
    ) -> (res: Token)
        requires
            old(self).wf(),
            start < usize::MAX,
        ensures
            final(self).wf(),
            final(self).chars() == old(self).chars(),
            final(self).source_len() == old(self).source_len(),
            final(self).source_id() == old(self).source_id(),
            (res, final(self).state()) == stream_optional(
                old(self).chars(),
                old(self).source_len(),
                old(self).source_id(),
                old(self).state(),
                start as int,
                expected,
                consumed_kind,
                default_kind,
            ),
    {
        proof {
            self.source_iter.lemma_inv();
        }
        match self.peek() {
            Some((end, ch)) => {
                if ch == expected {
                    self.next();
                    Spanned::new(self.make_span(start, end + 1), consumed_kind)
                } else {
                    Spanned::new(self.make_span(start, start + 1), default_kind)
                }
            },
            None => Spanned::new(self.make_span(start, start + 1), default_kind),
        }
    }

    /// The one-character token of kind `kind` at `start`.
    fn single_character_token(&self, start: SourcePos, kind: TokenKind) -> (res: Token)
        requires
            start < usize::MAX,
        ensures
            res == stream_token(self.source_id(), start as int, start + 1, kind),
    {
        Spanned::new(self.make_span(start, start + 1), kind)
    }

    /// The span of this source from `start` to `end`.
    fn make_span(&self, start: SourcePos, end: SourcePos) -> (res: Span)
        ensures
            res == (Span { source_id: self.source_id(), start_pos: start, end_pos: end }),
    {
        Span::new(self.source.id, start, end)
    }

    /// The next character and its position, without moving past it.
    fn peek(&mut self) -> (res: Option<(SourcePos, char)>)
        requires
            old(self).wf(),
        ensures
            final(self).wf(),
            final(self).chars() == old(self).chars(),
            final(self).source_len() == old(self).source_len(),
            final(self).source_id() == old(self).source_id(),
            ({
                let (item, st) = iter_peek(old(self).chars(), old(self).source_len(), old(self).state());
                &&& final(self).state() == st
                &&& match (res, item) {
                    (Some((p, c)), Some((q, d))) => p as int == q && c == d,
                    (None, None) => true,
                    _ => false,
                }
            }),
    {
        self.source_iter.peek()
    }

    /// The next character and its position, moving past it.
    fn next(&mut self) -> (res: Option<(SourcePos, char)>)
        requires
            old(self).wf(),
        ensures
            final(self).wf(),
            final(self).chars() == old(self).chars(),
            final(self).source_len() == old(self).source_len(),
            final(self).source_id() == old(self).source_id(),
            ({
                let (item, st) = iter_next(old(self).chars(), old(self).source_len(), old(self).state());
                &&& final(self).state() == st
                &&& match (res, item) {
                    (Some((p, c)), Some((q, d))) => p as int == q && c == d,
                    (None, None) => true,
                    _ => false,
                }
            }),
    {
        self.source_iter.next()
    }
}

/// Whether `ch` belongs to `class`.
fn char_in_class(class: CharClass, ch: char) -> (res: bool)
    ensures
        res == in_class(class, ch),
{
    match class {
        CharClass::Whitespace => is_whitespace(ch),
        CharClass::Digit => is_ascii_digit(ch),
        CharClass::Word => is_alphanumeric(ch) || ch == '_',
        CharClass::NotNewline => ch != '\n',
    }
}

/// The kind of a token of the single character `ch`, if it always stands
/// alone.
fn single_kind(ch: char) -> (res: Option<TokenKind>)
    ensures
        res == stream_single_kind(ch),
{
    if ch == '(' {
        Some(TokenKind::LeftParenthesis)
    } else if ch == ')' {
        Some(TokenKind::RightParenthesis)
    } else if ch == '{' {
        Some(TokenKind::LeftCurlyBrace)
    } else if ch == '}' {
        Some(TokenKind::RightCurlyBrace)
    } else if ch == '+' {
        Some(TokenKind::Plus)
    } else if ch == '-' {
        Some(TokenKind::Minus)
    } else if ch == '*' {
        Some(TokenKind::Star)
    } else if ch == '/' {
        Some(TokenKind::Slash)
    } else if ch == '%' {
        Some(TokenKind::Percent)
    } else if ch == '=' {
        Some(TokenKind::Equal)
    } else if ch == '.' {
        Some(TokenKind::Period)
    } else if ch == ',' {
        Some(TokenKind::Comma)
    } else if ch == ';' {
        Some(TokenKind::SemiColon)
    } else {
        None
    }
}

/// Each keyword is a kind of its own, named after the word: a word that is
/// a keyword gives the kind named "the <word> keyword", so two different
/// words never give the same keyword kind; `true` and `false` give the
/// boolean kind, and `Int` and `Bool` the type kinds, and any other word an identifier.
pub proof fn lemma_stream_keywords_name_their_words(w1: Seq<char>, w2: Seq<char>)
    ensures
        ({
            let k = stream_word_kind(w1);
            match k {
                TokenKind::Identifer => true,
                TokenKind::Boolean => w1 == "true"@ || w1 == "false"@,
                TokenKind::IntType => w1 == "Int"@,
                TokenKind::BooleanType => w1 == "Bool"@,
                _ => k.text() == "the "@ + w1 + " keyword"@ && (stream_word_kind(w2) == k ==> w1 == w2),
            }
        }),
{
    reveal_strlit("not");
    reveal_strlit("or");
    reveal_strlit("and");
    reveal_strlit("let");
    reveal_strlit("if");
    reveal_strlit("then");
    reveal_strlit("else");
    reveal_strlit("while");
    reveal_strlit("define");
    reveal_strlit("return");
    reveal_strlit("the not keyword");
    reveal_strlit("the or keyword");
    reveal_strlit("the and keyword");
    reveal_strlit("the let keyword");
    reveal_strlit("the if keyword");
    reveal_strlit("the then keyword");
    reveal_strlit("the else keyword");
    reveal_strlit("the while keyword");
    reveal_strlit("the define keyword");
    reveal_strlit("the return keyword");
    reveal_strlit("the ");
    reveal_strlit(" keyword");
    reveal_strlit("Int");
    reveal_strlit("Bool");
    reveal_strlit("true");
    reveal_strlit("false");
    let k = stream_word_kind(w1);
    if !(k is Identifer) && !(k is Boolean) && !(k is IntType) && !(k is BooleanType) {
        assert(k.text() =~= "the "@ + w1 + " keyword"@);
        if stream_word_kind(w2) == k {
            assert(k.text() =~= "the "@ + w2 + " keyword"@);
            assert(w1 =~= k.text().subrange(4, k.text().len() - 8));
            assert(w2 =~= k.text().subrange(4, k.text().len() - 8));
        }
    }
}

/// Each character that stands alone as a token gives a kind of its own: two
/// different characters never give the same kind.
pub proof fn lemma_stream_single_kinds_are_distinct(c1: char, c2: char)
    ensures
        stream_single_kind(c1) is Some && stream_single_kind(c1) == stream_single_kind(c2) ==> c1 == c2,
{
}

} // verus!
