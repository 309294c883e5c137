//! A lexer that turns every piece of a source, whitespace included, into a
//! token, so that the tokens of a text follow one another without gaps.

pub mod source_iter;
pub mod token_kind;

use vstd::prelude::*;

use crate::source::source::{text_bytes, Source, SourceId};
use crate::source::span::{SourcePos, Span, Spanned};
use crate::text::{
    alphabetic_spec, alphanumeric_spec, is_alphabetic, is_alphanumeric, is_ascii_digit,
    is_ascii_digit_spec, is_whitespace, whitespace_spec,
};

use self::source_iter::{iter_next, iter_peek, IterState, SourceIter};
use self::token_kind::{Token, TokenKind};

verus! {

/// The characters a token may continue with.
#[derive(Clone, Copy, PartialEq, Eq, Structural)]
pub enum CharClass {
    /// White space.
    Whitespace,
    /// Decimal digits.
    Digit,
    /// Letters, digits and `_`.
    Word,
    /// Anything but a line break.
    NotNewline,
}

/// `c` belongs to `class`.
pub open spec fn in_class(class: CharClass, c: char) -> bool {
    match class {
        CharClass::Whitespace => whitespace_spec(c),
        CharClass::Digit => is_ascii_digit_spec(c),
        CharClass::Word => alphanumeric_spec(c) || c == '_',
        CharClass::NotNewline => c != '\n',
    }
}

/// The token of kind `kind` over `start..end` of source `id`.
pub open spec fn token_at(id: SourceId, start: int, end: int, kind: TokenKind) -> Token {
    Spanned { span: Span { source_id: id, start_pos: start as usize, end_pos: end as usize }, node: kind }
}

/// Consumes the characters of `class` that follow; returns the position of
/// the last one consumed (`end` if none) and where the cursor stands after.
pub open spec fn continue_while_spec(
    chars: Seq<char>,
    source_len: int,
    st: IterState,
    class: CharClass,
    end: int,
) -> (int, IterState)
    decreases chars.len() - st.index, if st.reached_eof { 0int } else { 1int },
{
    if !(0 <= st.index <= chars.len()) {
        (end, st)
    } else {
        let (peeked, st1) = iter_peek(chars, source_len, st);
        match peeked {
            Some((next_pos, ch)) => if in_class(class, ch) {
                let (_, st2) = iter_next(chars, source_len, st1);
                continue_while_spec(chars, source_len, st2, class, next_pos)
            } else {
                (end, st1)
            },
            None => (end, st1),
        }
    }
}

/// The token that starts at `start` and, when the next character is
/// `expected`, takes it in too (`consumed`), else stays one character long
/// (`default`).
pub open spec fn optionally_continue_spec(
    chars: Seq<char>,
    source_len: int,
    id: SourceId,
    st: IterState,
    start: int,
    expected: char,
    consumed: TokenKind,
    default: TokenKind,
) -> (Token, IterState) {
    let (peeked, st1) = iter_peek(chars, source_len, st);
    match peeked {
        Some((end, ch)) => if ch == expected {
            let (_, st2) = iter_next(chars, source_len, st1);
            (token_at(id, start, end + 1, consumed), st2)
        } else {
            (token_at(id, start, start + 1, default), st1)
        },
        None => (token_at(id, start, start + 1, default), st1),
    }
}

/// The kind of a word: a keyword's own kind, `Boolean` for the literals, and
/// `Identifer` for any other word.
pub open spec fn word_kind(word: Seq<char>) -> TokenKind {
    if word == "true"@ || word == "false"@ {
        TokenKind::Boolean
    } else if word == "not"@ {
        TokenKind::Not
    } else if word == "or"@ {
        TokenKind::Or
    } else if word == "and"@ {
        TokenKind::And
    } else if word == "let"@ {
        TokenKind::Let
    } else if word == "if"@ {
        TokenKind::If
    } else if word == "then"@ {
        TokenKind::Then
    } else if word == "else"@ {
        TokenKind::Else
    } else if word == "while"@ {
        TokenKind::While
    } else if word == "define"@ {
        TokenKind::Define
    } else if word == "return"@ {
        TokenKind::Return
    } else {
        TokenKind::Identifer
    }
}

/// The kind of a token made of the single character `c`, for the
/// characters that always stand alone.
pub open spec fn single_character_kind(c: char) -> Option<TokenKind> {
    if c == '(' {
        Some(TokenKind::LeftParenthesis)
    } else if c == ')' {
        Some(TokenKind::RightParenthesis)
    } else if c == '{' {
        Some(TokenKind::LeftCurlyBrace)
    } else if c == '}' {
        Some(TokenKind::RightCurlyBrace)
    } else if c == '+' {
        Some(TokenKind::Plus)
    } else if c == '-' {
        Some(TokenKind::Minus)
    } else if c == '*' {
        Some(TokenKind::Star)
    } else if c == '/' {
        Some(TokenKind::Slash)
    } else if c == '%' {
        Some(TokenKind::Percent)
    } else if c == '=' {
        Some(TokenKind::Equal)
    } else if c == ',' {
        Some(TokenKind::Comma)
    } else if c == ';' {
        Some(TokenKind::SemiColon)
    } else if c == '\0' {
        Some(TokenKind::EndOfFile)
    } else {
        None
    }
}

/// The next token of a source of id `id` and byte length `source_len` whose
/// characters are `chars`, read from cursor state `st`, and the state after
/// it. White space, numbers and words run as long as their characters do;
/// `<=`, `>=` and `::` are read as one token; a character no token starts
/// with gives an `Error` token of one character.
pub open spec fn next_token_spec(chars: Seq<char>, source_len: int, id: SourceId, st: IterState) -> (
    Option<Token>,
    IterState,
) {
    let (item, st1) = iter_next(chars, source_len, st);
    match item {
        None => (None, st1),
        Some((start, ch)) => if whitespace_spec(ch) {
            let (end, st2) = continue_while_spec(chars, source_len, st1, CharClass::Whitespace, start);
            (Some(token_at(id, start, end + 1, TokenKind::Whitespace)), st2)
        } else if is_ascii_digit_spec(ch) {
            let (end, st2) = continue_while_spec(chars, source_len, st1, CharClass::Digit, start);
            (Some(token_at(id, start, end + 1, TokenKind::Int)), st2)
        } else if alphabetic_spec(ch) {
            let (end, st2) = continue_while_spec(chars, source_len, st1, CharClass::Word, start);
            (Some(token_at(id, start, end + 1, word_kind(chars.subrange(start, end + 1)))), st2)
        } else if ch == '<' {
            let (t, st2) = optionally_continue_spec(
                chars, source_len, id, st1, start, '=', TokenKind::LessThanEqual, TokenKind::LeftAngleBracket);
            (Some(t), st2)
        } else if ch == '>' {
            let (t, st2) = optionally_continue_spec(
                chars, source_len, id, st1, start, '=', TokenKind::GreaterThanEqual, TokenKind::RightAngleBracket);
            (Some(t), st2)
        } else if ch == ':' {
            let (t, st2) = optionally_continue_spec(
                chars, source_len, id, st1, start, ':', TokenKind::ColonColon, TokenKind::Colon);
            (Some(t), st2)
        } else {
            match single_character_kind(ch) {
                Some(kind) => (Some(token_at(id, start, start + 1, kind)), st1),
                None => (Some(token_at(id, start, start + 1, TokenKind::Error)), st1),
            }
        },
    }
}

/// Reads the tokens of a source one at a time.
pub struct LexicalAnalyzer<'source> {
    source: &'source Source,
    source_iter: SourceIter,
}

impl<'source> LexicalAnalyzer<'source> {
    /// The cursor is consistent.
    pub closed spec fn wf(&self) -> bool {
        self.source_iter.wf()
    }

    /// The characters of the source.
    pub closed spec fn chars(&self) -> Seq<char> {
        self.source_iter.chars()
    }

    /// The byte length of the source.
    pub closed spec fn source_len(&self) -> int {
        self.source_iter.source_len()
    }

    /// The id of the source.
    pub closed spec fn source_id(&self) -> SourceId {
        self.source.id
    }

    /// Where the lexer stands in the source.
    pub closed spec fn state(&self) -> IterState {
        self.source_iter.state()
    }

    /// A lexer at the start of `source`.
    pub fn new(source: &'source Source) -> (res: Self)
        requires
            text_bytes(source.text@).len() < usize::MAX,
        ensures
            res.chars() == source.text@,
            res.source_len() == text_bytes(source.text@).len(),
            res.source_id() == source.id,
            res.state() == (IterState { index: 0, reached_eof: false }),
            res.wf(),
    {
        Self { source, source_iter: SourceIter::new(source) }
    }

    /// The next token, or `None` once the end-of-file token has been read.
    pub fn next_token(&mut self) -> (res: Option<Token>)
        requires
            old(self).wf(),
        ensures
            final(self).wf(),
            final(self).chars() == old(self).chars(),
            final(self).source_len() == old(self).source_len(),
            final(self).source_id() == old(self).source_id(),
            (res, final(self).state()) == next_token_spec(
                old(self).chars(),
                old(self).source_len(),
                old(self).source_id(),
                old(self).state(),
            ),
    {
        proof {
            self.source_iter.lemma_inv();
        }
        let ghost st0 = self.state();
        let (start, ch) = match self.next() {
            Some(item) => item,
            None => return None,
        };
        proof {
            self.source_iter.lemma_inv();
            let (item, st1) = iter_next(self.chars(), self.source_len(), st0);
            assert(item == Some((start as int, ch)));
            if 0 <= st0.index < self.chars().len() {
                assert(start < self.chars().len());
                assert(self.state().index == start + 1);
            } else {
                assert(start == self.source_len());
                assert(ch == '\0');
                assert(self.state().reached_eof);
            }
        }
        if is_whitespace(ch) {
            Some(self.tokenize_whitespace(start))
        } else if is_ascii_digit(ch) {
            Some(self.tokenize_number(start))
        } else if is_alphabetic(ch) {
            Some(self.tokenize_word(start))
        } else if ch == '<' {
            Some(self.optionally_continue(start, '=', TokenKind::LessThanEqual, TokenKind::LeftAngleBracket))
        } else if ch == '>' {
            Some(self.optionally_continue(start, '=', TokenKind::GreaterThanEqual, TokenKind::RightAngleBracket))
        } else if ch == ':' {
            Some(self.optionally_continue(start, ':', TokenKind::ColonColon, TokenKind::Colon))
        } else if ch == '(' {
            Some(self.single_character_token(start, TokenKind::LeftParenthesis))
        } else if ch == ')' {
            Some(self.single_character_token(start, TokenKind::RightParenthesis))
        } else if ch == '{' {
            Some(self.single_character_token(start, TokenKind::LeftCurlyBrace))
        } else if ch == '}' {
            Some(self.single_character_token(start, TokenKind::RightCurlyBrace))
        } else if ch == '+' {
            Some(self.single_character_token(start, TokenKind::Plus))
        } else if ch == '-' {
            Some(self.single_character_token(start, TokenKind::Minus))
        } else if ch == '*' {
            Some(self.single_character_token(start, TokenKind::Star))
        } else if ch == '/' {
            Some(self.single_character_token(start, TokenKind::Slash))
        } else if ch == '%' {
            Some(self.single_character_token(start, TokenKind::Percent))
        } else if ch == '=' {
            Some(self.single_character_token(start, TokenKind::Equal))
        } else if ch == ',' {
            Some(self.single_character_token(start, TokenKind::Comma))
        } else if ch == ';' {
            Some(self.single_character_token(start, TokenKind::SemiColon))
        } else if ch == '\0' {
            Some(self.single_character_token(start, TokenKind::EndOfFile))
        } else {
            // An unrecognized character: the error it stands for is not
            // reported by this lexer, only marked by the token's kind.
            let span = self.cook_span(start, start + 1);
            Some(Spanned::new(span, TokenKind::Error))
        }
    }

    /// A white-space token from `start` on.
    fn tokenize_whitespace(&mut self, start: SourcePos) -> (res: Token)
        requires
            old(self).wf(),
            start <= old(self).source_len(),
            start < old(self).chars().len() || start == old(self).source_len(),
            start <= old(self).state().index || old(self).state().reached_eof,
        ensures
            final(self).wf(),
            final(self).chars() == old(self).chars(),
            final(self).source_len() == old(self).source_len(),
            final(self).source_id() == old(self).source_id(),
            ({
                let (end, st) = continue_while_spec(
                    old(self).chars(), old(self).source_len(), old(self).state(), CharClass::Whitespace, start as int);
                res == token_at(old(self).source_id(), start as int, end + 1, TokenKind::Whitespace)
                    && final(self).state() == st
            }),
    {
        let whitespace_span = self.continue_while(start, CharClass::Whitespace);
        Spanned::new(whitespace_span, TokenKind::Whitespace)
    }

    /// A number token from `start` on.
    fn tokenize_number(&mut self, start: SourcePos) -> (res: Token)
        requires
            old(self).wf(),
            start <= old(self).source_len(),
            start < old(self).chars().len() || start == old(self).source_len(),
            start <= old(self).state().index || old(self).state().reached_eof,
        ensures
            final(self).wf(),
            final(self).chars() == old(self).chars(),
            final(self).source_len() == old(self).source_len(),
            final(self).source_id() == old(self).source_id(),
            ({
                let (end, st) = continue_while_spec(
                    old(self).chars(), old(self).source_len(), old(self).state(), CharClass::Digit, start as int);
                res == token_at(old(self).source_id(), start as int, end + 1, TokenKind::Int)
                    && final(self).state() == st
            }),
    {
        let digits_span = self.continue_while(start, CharClass::Digit);
        Spanned::new(digits_span, TokenKind::Int)
    }

    /// A word token (a keyword, a boolean literal or an identifier) from
    /// `start` on.
    fn tokenize_word(&mut self, start: SourcePos) -> (res: Token)
        requires
            old(self).wf(),
            start < old(self).chars().len(),
            old(self).state().index == start + 1,
        ensures
            ({
                let (end, st) = continue_while_spec(
                    old(self).chars(), old(self).source_len(), old(self).state(), CharClass::Word, start as int);
                start <= end < old(self).chars().len()
            }),
            final(self).wf(),
            final(self).chars() == old(self).chars(),
            final(self).source_len() == old(self).source_len(),
            final(self).source_id() == old(self).source_id(),
            ({
                let (end, st) = continue_while_spec(
                    old(self).chars(), old(self).source_len(), old(self).state(), CharClass::Word, start as int);
                res == token_at(
                    old(self).source_id(),
                    start as int,
                    end + 1,
                    word_kind(old(self).chars().subrange(start as int, end + 1)),
                ) && final(self).state() == st
            }),
    {
        proof {
            self.source_iter.lemma_inv();
        }
        let word_span = self.continue_while(start, CharClass::Word);
        proof {
            self.source_iter.lemma_inv();
        }
        let from = word_span.start_pos;
        let to = word_span.end_pos;
        let kind = if self.source_iter.text_matches(from, to, "true") || self.source_iter.text_matches(
            from,
            to,
            "false",
        ) {
            TokenKind::Boolean
        } else if self.source_iter.text_matches(from, to, "not") {
            TokenKind::Not
        } else if self.source_iter.text_matches(from, to, "or") {
            TokenKind::Or
        } else if self.source_iter.text_matches(from, to, "and") {
            TokenKind::And
        } else if self.source_iter.text_matches(from, to, "let") {
            TokenKind::Let
        } else if self.source_iter.text_matches(from, to, "if") {
            TokenKind::If
        } else if self.source_iter.text_matches(from, to, "then") {
            TokenKind::Then
        } else if self.source_iter.text_matches(from, to, "else") {
            TokenKind::Else
        } else if self.source_iter.text_matches(from, to, "while") {
            TokenKind::While
        } else if self.source_iter.text_matches(from, to, "define") {
            TokenKind::Define
        } else if self.source_iter.text_matches(from, to, "return") {
            TokenKind::Return
        } else {
            TokenKind::Identifer
        };
        Spanned::new(word_span, kind)
    }

    /// Consumes the characters of `class` that follow; the span from
    /// `start` to just past the last one consumed.
    fn continue_while(&mut self, start: SourcePos, class: CharClass) -> (res: Span)
        requires
            old(self).wf(),
            start <= old(self).source_len(),
            start < old(self).chars().len() || start == old(self).source_len(),
            start <= old(self).state().index || old(self).state().reached_eof,
        ensures
            final(self).wf(),
            final(self).chars() == old(self).chars(),
            final(self).source_len() == old(self).source_len(),
            final(self).source_id() == old(self).source_id(),
            ({
                let (end, st) = continue_while_spec(
                    old(self).chars(), old(self).source_len(), old(self).state(), class, start as int);
                &&& res == Span { source_id: old(self).source_id(), start_pos: start, end_pos: (end + 1) as usize }
                &&& final(self).state() == st
                &&& start <= end
                &&& (end < old(self).chars().len() || end == old(self).source_len())
                &&& (end == start || end < old(self).chars().len() || class == CharClass::NotNewline)
            }),
    {
        let mut end = start;
        loop
            invariant_except_break
                self.wf(),
                self.chars() == old(self).chars(),
                self.source_len() == old(self).source_len(),
                self.source_id() == old(self).source_id(),
                start <= end,
                end < self.chars().len() || end == self.source_len(),
                start <= self.state().index || self.state().reached_eof,
                start <= self.source_len(),
                end == start || end < self.chars().len() || class == CharClass::NotNewline,
                continue_while_spec(self.chars(), self.source_len(), self.state(), class, end as int)
                    == continue_while_spec(
                    old(self).chars(), old(self).source_len(), old(self).state(), class, start as int),
            ensures
                self.wf(),
                self.chars() == old(self).chars(),
                self.source_len() == old(self).source_len(),
                self.source_id() == old(self).source_id(),
                start <= end,
                end < self.chars().len() || end == self.source_len(),
                end == start || end < self.chars().len() || class == CharClass::NotNewline,
                continue_while_spec(
                    old(self).chars(), old(self).source_len(), old(self).state(), class, start as int)
                    == (end as int, self.state()),
            decreases self.chars().len() - self.state().index, if self.state().reached_eof { 0int } else { 1int },
        {
            proof {
                self.source_iter.lemma_inv();
            }
            match self.peek() {
                Some((next_pos, ch)) => {
                    if self.in_class(class, ch) {
                        self.next();
                        end = next_pos;
                    } else {
                        break;
                    }
                },
                None => break,
            }
        }
        proof {
            self.source_iter.lemma_inv();
        }
        self.cook_span(start, end + 1)
    }

    /// Whether `ch` belongs to `class`.
    fn in_class(&self, class: CharClass, ch: char) -> (res: bool)
        ensures
            res == in_class(class, ch),
    {
        match class {
            CharClass::Whitespace => is_whitespace(ch),
            CharClass::Digit => is_ascii_digit(ch),
            CharClass::Word => is_alphanumeric(ch) || ch == '_',
            CharClass::NotNewline => ch != '\n',
        }
    }

    /// The token from `start` that takes in the next character too when it is
    /// `expected` (giving `consumed`), else stays one character long
    /// (giving `default`).
    fn optionally_continue(
        &mut self,
        start: SourcePos,
        expected: char,
        consumed_kind: TokenKind,
        default_kind: TokenKind,
    ) -> (res: Token)
        requires
            old(self).wf(),
            start < usize::MAX,
        ensures
            final(self).wf(),
            final(self).chars() == old(self).chars(),
            final(self).source_len() == old(self).source_len(),
            final(self).source_id() == old(self).source_id(),
            (res, final(self).state()) == optionally_continue_spec(
                old(self).chars(),
                old(self).source_len(),
                old(self).source_id(),
                old(self).state(),
                start as int,
                expected,
                consumed_kind,
                default_kind,
            ),
    {
        proof {
            self.source_iter.lemma_inv();
        }
        match self.peek() {
            Some((end, ch)) => {
                if ch == expected {
                    self.next();
                    Spanned::new(self.cook_span(start, end + 1), consumed_kind)
                } else {
                    Spanned::new(self.cook_span(start, start + 1), default_kind)
                }
            },
            None => Spanned::new(self.cook_span(start, start + 1), default_kind),
        }
    }

    /// The one-character token of kind `kind` at `start`.
    fn single_character_token(&self, start: SourcePos, kind: TokenKind) -> (res: Token)
        requires
            start < usize::MAX,
        ensures
            res == token_at(self.source_id(), start as int, start + 1, kind),
    {
        Spanned::new(self.cook_span(start, start + 1), kind)
    }

    /// The span of this source from `start` to `end`.
    fn cook_span(&self, start: SourcePos, end: SourcePos) -> (res: Span)
        ensures
            res == (Span { source_id: self.source_id(), start_pos: start, end_pos: end }),
    {
        Span::new(self.source.id, start, end)
    }

    /// The next character and its position, without moving past it.
    fn peek(&mut self) -> (res: Option<(SourcePos, char)>)
        requires
            old(self).wf(),
        ensures
            final(self).wf(),
            final(self).chars() == old(self).chars(),
            final(self).source_len() == old(self).source_len(),
            final(self).source_id() == old(self).source_id(),
            ({
                let (item, st) = iter_peek(old(self).chars(), old(self).source_len(), old(self).state());
                &&& final(self).state() == st
                &&& match (res, item) {
                    (Some((p, c)), Some((q, d))) => p as int == q && c == d,
                    (None, None) => true,
                    _ => false,
                }
            }),
    {
        self.source_iter.peek()
    }

    /// The next character and its position, moving past it.
    fn next(&mut self) -> (res: Option<(SourcePos, char)>)
        requires
            old(self).wf(),
        ensures
            final(self).wf(),
            final(self).chars() == old(self).chars(),
            final(self).source_len() == old(self).source_len(),
            final(self).source_id() == old(self).source_id(),
            ({
                let (item, st) = iter_next(old(self).chars(), old(self).source_len(), old(self).state());
                &&& final(self).state() == st
                &&& match (res, item) {
                    (Some((p, c)), Some((q, d))) => p as int == q && c == d,
                    (None, None) => true,
                    _ => false,
                }
            }),
    {
        self.source_iter.next()
    }
}

} // verus!

verus! {

pub proof fn lemma_continue_while_advances(
    chars: Seq<char>,
    source_len: int,
    st: IterState,
    class: CharClass,
    end: int,
)
    requires
        0 <= end < chars.len() <= source_len,
        st.index == end + 1,
        st.reached_eof ==> st.index == chars.len(),
        class != CharClass::NotNewline,
    ensures
        ({
            let (e, st2) = continue_while_spec(chars, source_len, st, class, end);
            &&& end <= e < chars.len()
            &&& st2.index == e + 1
        }),
    decreases chars.len() - st.index, if st.reached_eof { 0int } else { 1int },
{
    let (peeked, st1) = iter_peek(chars, source_len, st);
    if let Some((next_pos, ch)) = peeked {
        if in_class(class, ch) {
            let (_, st2) = iter_next(chars, source_len, st1);
            if st.index < chars.len() {
                lemma_continue_while_advances(chars, source_len, st2, class, next_pos);
            }
        }
    }
}

/// Reading a token from inside the text yields a token that starts where the
/// lexer stood and ends where it stands afterwards, at least one character
/// further on and no further than the end of the text: the tokens of a text
/// follow one another with no gap and no overlap.
pub proof fn lemma_token_tiles(chars: Seq<char>, source_len: int, id: SourceId, st: IterState)
    requires
        0 <= st.index < chars.len(),
        chars.len() <= source_len < usize::MAX,
        !st.reached_eof,
    ensures
        ({
            let (token, st2) = next_token_spec(chars, source_len, id, st);
            &&& token is Some
            &&& token->0.span.source_id == id
            &&& token->0.span.start_pos == st.index
            &&& token->0.span.end_pos == st2.index
            &&& st.index < st2.index <= chars.len()
        }),
{
    let (item, st1) = iter_next(chars, source_len, st);
    let start = st.index;
    let ch = chars[start];
    if whitespace_spec(ch) {
        lemma_continue_while_advances(chars, source_len, st1, CharClass::Whitespace, start);
    } else if is_ascii_digit_spec(ch) {
        lemma_continue_while_advances(chars, source_len, st1, CharClass::Digit, start);
    } else if alphabetic_spec(ch) {
        lemma_continue_while_advances(chars, source_len, st1, CharClass::Word, start);
    }
}

/// Once the lexer has read every character, it yields at most an
/// end-of-file token at the end of the source, and nothing after that.
pub proof fn lemma_end_of_text(chars: Seq<char>, source_len: int, id: SourceId, st: IterState)
    requires
        st.index == chars.len(),
        chars.len() <= source_len < usize::MAX,
    ensures
        ({
            let (token, st2) = next_token_spec(chars, source_len, id, st);
            &&& st.reached_eof ==> token is None && st2 == st
            &&& !st.reached_eof ==> token == Some(
                token_at(id, source_len, source_len + 1, TokenKind::EndOfFile),
            ) && st2.reached_eof && st2.index == st.index
        }),
{
}

/// Each keyword is a kind of its own, named after the word: a word that is
/// a keyword gives the kind named "<word> keyword", so two different
/// words never give the same keyword kind; `true` and `false` give the
/// boolean kind, and any other word an identifier.
pub proof fn lemma_keywords_name_their_words(w1: Seq<char>, w2: Seq<char>)
    ensures
        ({
            let k = word_kind(w1);
            match k {
                TokenKind::Identifer => true,
                TokenKind::Boolean => w1 == "true"@ || w1 == "false"@,
                _ => k.text() == w1 + " keyword"@ && (word_kind(w2) == k ==> w1 == w2),
            }
        }),
{
    reveal_strlit("not");
    reveal_strlit("or");
    reveal_strlit("and");
    reveal_strlit("let");
    reveal_strlit("if");
    reveal_strlit("then");
    reveal_strlit("else");
    reveal_strlit("while");
    reveal_strlit("define");
    reveal_strlit("return");
    reveal_strlit("not keyword");
    reveal_strlit("or keyword");
    reveal_strlit("and keyword");
    reveal_strlit("let keyword");
    reveal_strlit("if keyword");
    reveal_strlit("then keyword");
    reveal_strlit("else keyword");
    reveal_strlit("while keyword");
    reveal_strlit("define keyword");
    reveal_strlit("return keyword");
    reveal_strlit(" keyword");
    reveal_strlit("true");
    reveal_strlit("false");
    let k = word_kind(w1);
    if !(k is Identifer) && !(k is Boolean) {
        assert(k.text() =~= w1 + " keyword"@);
        if word_kind(w2) == k {
            assert(k.text() =~= w2 + " keyword"@);
            assert(w1 =~= k.text().subrange(0, k.text().len() - 8));
            assert(w2 =~= k.text().subrange(0, k.text().len() - 8));
        }
    }
}

/// Each character that stands alone as a token gives a kind of its own: two
/// different characters never give the same kind.
pub proof fn lemma_single_character_kinds_are_distinct(c1: char, c2: char)
    ensures
        single_character_kind(c1) is Some && single_character_kind(c1) == single_character_kind(c2) ==> c1 == c2,
{
}

} // verus!
