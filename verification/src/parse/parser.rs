//! The parser of function signatures. It reads tokens from a token stream
//! with one token of lookahead, reports each token it did not expect to the
//! compilation context, and goes on.

use vstd::prelude::*;

use crate::context::compilation_context::CompilationContext;
use crate::context::symbol_interner::interned;
use crate::error::{diagnostic_views, DiagnosticView, EnviousDiagnostic, ParserDiagnosticKind};
use crate::parse::syntax::ast::{program_view, Function, FunctionSignature, Parameter, Program};
use crate::parse::syntax::expression::{Identifier, Type};
use crate::parse::token_kind::TokenKind;
use crate::parse::token_stream::{
    lemma_stream_progress, progress, stream_next, stream_token, unknown_characters, Token, TokenStream,
};
use crate::source::source::{text_bytes, Source, SourceId};
use crate::source::span::{Span, Spanned};
use crate::syntax::lexical_analysis::source_iter::IterState;

verus! {

/// What the parser reads: the characters of a source, its byte length and
/// its id.
pub struct StreamText {
    pub chars: Seq<char>,
    pub len: int,
    pub id: SourceId,
}

/// The state of the parser: where its token stream stands, the token it
/// has looked at ahead (once looked), the current and previous tokens, the
/// diagnostics reported so far and the names interned so far.
pub struct ParseState {
    pub st: IterState,
    pub peeked: Option<Option<Token>>,
    pub current: Token,
    pub previous: Token,
    pub diags: Seq<DiagnosticView>,
    pub symbols: Seq<Seq<char>>,
}

/// The reports of the characters at `spans` that no token starts with.
pub open spec fn lexer_views(spans: Seq<Span>) -> Seq<DiagnosticView> {
    spans.map_values(|s: Span| DiagnosticView::UnknownCharacter(s))
}

/// How much is left to read: twice what the stream has left, and one for
/// a token looked at ahead.
pub open spec fn measure(c: StreamText, s: ParseState) -> int {
    2 * progress(c.chars, s.st) + if s.peeked matches Some(Some(_)) { 1int } else { 0int }
}

/// An identifier token lies within the text.
pub open spec fn token_in_text(c: StreamText, t: Token) -> bool {
    t.node == TokenKind::Identifer ==> t.span.start_pos <= t.span.end_pos <= c.chars.len()
}

/// The state is one a parser over `c` can be in.
pub open spec fn valid(c: StreamText, s: ParseState) -> bool {
    &&& 0 <= s.st.index <= c.chars.len()
    &&& c.chars.len() <= c.len < usize::MAX
    &&& (s.st.reached_eof ==> s.st.index == c.chars.len())
    &&& (s.peeked matches Some(Some(t)) ==> token_in_text(c, t))
}

/// The token that stands for the end of the source once the stream is
/// used up.
pub open spec fn end_token(c: StreamText) -> Token {
    stream_token(c.id, c.len, c.len, TokenKind::EndOfFile)
}

/// The report of `found` at `span` where one of `kinds` was expected.
pub open spec fn expected_view(span: Span, kinds: Seq<TokenKind>, found: TokenKind) -> DiagnosticView {
    DiagnosticView::ExpectedKind { span, expected_kinds: kinds, found_kind: found }
}

/// Reads a token from the stream itself.
#[verifier::opaque]
pub open spec fn stream_read(c: StreamText, s: ParseState) -> (Option<Token>, ParseState) {
    let (t, st2, skipped) = stream_next(c.chars, c.len, c.id, s.st);
    (t, ParseState { st: st2, diags: s.diags + lexer_views(skipped), ..s })
}

/// The next token of the stream: the one looked at ahead, if any.
#[verifier::opaque]
pub open spec fn raw_next(c: StreamText, s: ParseState) -> (Option<Token>, ParseState) {
    match s.peeked {
        Some(p) => (p, ParseState { peeked: None, ..s }),
        None => stream_read(c, s),
    }
}

/// The next token of the stream, kept as the one looked at ahead.
#[verifier::opaque]
pub open spec fn raw_peek(c: StreamText, s: ParseState) -> (Option<Token>, ParseState) {
    match s.peeked {
        Some(p) => (p, s),
        None => {
            let (t, s1) = stream_read(c, s);
            (t, ParseState { peeked: Some(t), ..s1 })
        },
    }
}

/// The token ahead, or the end token once the stream is used up.
#[verifier::opaque]
pub open spec fn peek_token(c: StreamText, s: ParseState) -> (Token, ParseState) {
    let (t, s1) = raw_peek(c, s);
    (
        match t {
            Some(tok) => tok,
            None => end_token(c),
        },
        s1,
    )
}

/// Moves to the next token; once the stream is used up this is the end
/// token, and reading it is reported as an item nothing was expected of.
#[verifier::opaque]
pub open spec fn next_token(c: StreamText, s: ParseState) -> (Token, ParseState) {
    let (t, s1) = raw_next(c, s);
    let (tok, s2) = match t {
        Some(tok) => (tok, s1),
        None => (
            end_token(c),
            ParseState { diags: s1.diags.push(expected_view(s1.current.span, Seq::empty(), TokenKind::EndOfFile)), ..s1 },
        ),
    };
    (tok, ParseState { previous: s2.current, current: tok, ..s2 })
}

/// Moves to the next token, which must be of one of the kinds `kinds`; one
/// of another kind is reported.
#[verifier::opaque]
pub open spec fn expect(c: StreamText, s: ParseState, kinds: Seq<TokenKind>) -> (Option<Token>, ParseState) {
    let (tok, s1) = next_token(c, s);
    if kinds.contains(tok.node) {
        (Some(tok), s1)
    } else {
        (None, ParseState { diags: s1.diags.push(expected_view(tok.span, kinds, tok.node)), ..s1 })
    }
}

/// A name: an identifier token, its text interned.
#[verifier::opaque]
pub open spec fn identifier(c: StreamText, s: ParseState) -> (Option<Identifier>, ParseState) {
    match expect(c, s, seq![TokenKind::Identifer]) {
        (None, s1) => (None, s1),
        (Some(tok), s1) => if s1.symbols.len() < u32::MAX {
            let (symbols, id) = interned(s1.symbols, c.chars.subrange(tok.span.start_pos as int, tok.span.end_pos as int));
            (Some(Spanned { span: tok.span, node: id as usize }), ParseState { symbols, ..s1 })
        } else {
            (None, s1)
        },
    }
}

/// A type: `Int` or `Bool`.
#[verifier::opaque]
pub open spec fn type_of(c: StreamText, s: ParseState) -> (Option<Spanned<Type>>, ParseState) {
    match expect(c, s, seq![TokenKind::IntType, TokenKind::BooleanType]) {
        (None, s1) => (None, s1),
        (Some(tok), s1) => (
            Some(Spanned { span: tok.span, node: if tok.node == TokenKind::IntType { Type::Int } else { Type::Boolean } }),
            s1,
        ),
    }
}

/// The parameters after `acc`, up to the `)` (which is not read); `first`
/// when none has been read yet. A token that can neither start a parameter
/// nor end the list is reported and ends it.
pub open spec fn parameters_from(c: StreamText, s: ParseState, acc: Seq<Parameter>, first: bool) -> (
    Option<Seq<Parameter>>,
    ParseState,
)
    decreases measure(c, s), 1int,
{
    if !valid(c, s) {
        (None, s)
    } else {
        let (tok, s1) = peek_token(c, s);
        if tok.node == TokenKind::RightParenthesis {
            (Some(acc), s1)
        } else if tok.node == TokenKind::Comma && !first {
            let (comma, s2) = next_token(c, s1);
            parameter_rest(c, s2, acc, Some(comma.span), measure(c, s))
        } else if tok.node == TokenKind::Identifer && first {
            parameter_rest(c, s1, acc, None, measure(c, s))
        } else {
            let kinds = if first {
                seq![TokenKind::Identifer, TokenKind::RightParenthesis]
            } else {
                seq![TokenKind::Comma, TokenKind::RightParenthesis]
            };
            (Some(acc), ParseState { diags: s1.diags.push(expected_view(tok.span, kinds, tok.node)), ..s1 })
        }
    }
}

/// One parameter, `name: Type`, after the comma `leading_comma` (if any).
#[verifier::opaque]
pub open spec fn one_parameter(c: StreamText, s: ParseState, leading_comma: Option<Span>) -> (Option<Parameter>, ParseState) {
    match identifier(c, s) {
        (None, s3) => (None, s3),
        (Some(name), s3) => match expect(c, s3, seq![TokenKind::Colon]) {
            (None, s4) => (None, s4),
            (Some(colon), s4) => match type_of(c, s4) {
                (None, s5) => (None, s5),
                (Some(ty), s5) => (Some(Parameter { leading_comma, name, colon: colon.span, ty }), s5),
            },
        },
    }
}

/// One parameter after the comma `leading_comma` (if any), then the
/// parameters after it. `limit` is how much was left to read before the
/// parameter.
pub open spec fn parameter_rest(
    c: StreamText,
    s: ParseState,
    acc: Seq<Parameter>,
    leading_comma: Option<Span>,
    limit: int,
) -> (Option<Seq<Parameter>>, ParseState)
    decreases limit, 0int,
{
    match one_parameter(c, s, leading_comma) {
        (None, s5) => (None, s5),
        (Some(p), s5) => if 0 <= measure(c, s5) < limit {
            parameters_from(c, s5, acc.push(p), false)
        } else {
            (None, s5)
        },
    }
}

/// A function signature after its `define`: the name, `(`, the
/// parameters, `)` and `=`.
pub open spec fn function(c: StreamText, s: ParseState) -> (Option<FunctionSignature>, ParseState) {
    let define_keyword = s.current.span;
    match identifier(c, s) {
        (None, s1) => (None, s1),
        (Some(name), s1) => match expect(c, s1, seq![TokenKind::LeftParenthesis]) {
            (None, s2) => (None, s2),
            (Some(lp), s2) => match parameters_from(c, s2, Seq::empty(), true) {
                (None, s3) => (None, s3),
                (Some(parameters), s3) => match expect(c, s3, seq![TokenKind::RightParenthesis]) {
                    (None, s4) => (None, s4),
                    (Some(rp), s4) => match expect(c, s4, seq![TokenKind::Equal]) {
                        (None, s5) => (None, s5),
                        (Some(eq), s5) => (
                            Some(FunctionSignature {
                                define_keyword,
                                name,
                                left_parenthesis: lp.span,
                                parameters,
                                right_parenthesis: rp.span,
                                equal_sign: eq.span,
                            }),
                            s5,
                        ),
                    },
                },
            },
        },
    }
}

/// The functions after `acc` up to the end of the source; a token that
/// cannot start a function is reported and skipped.
pub open spec fn program_from(c: StreamText, s: ParseState, acc: Seq<FunctionSignature>) -> (Seq<FunctionSignature>, ParseState)
    decreases measure(c, s),
{
    if !valid(c, s) {
        (acc, s)
    } else {
        let (tok, s1) = next_token(c, s);
        if tok.node == TokenKind::EndOfFile {
            (acc, s1)
        } else {
            let (acc2, s2) = if tok.node == TokenKind::Define {
                match function(c, s1) {
                    (Some(f), s2) => (acc.push(f), s2),
                    (None, s2) => (acc, s2),
                }
            } else {
                (acc, ParseState { diags: s1.diags.push(expected_view(tok.span, seq![TokenKind::Define], tok.node)), ..s1 })
            };
            if valid(c, s2) && 0 <= measure(c, s2) < measure(c, s) {
                program_from(c, s2, acc2)
            } else {
                (acc2, s2)
            }
        }
    }
}

/// A parser of the function signatures of one source.
pub struct Parser<'source> {
    token_stream: TokenStream<'source>,
    peeked: Option<Option<Token>>,
    source: &'source Source,
    previous_token: Token,
    current_token: Token,
}

impl<'source> Parser<'source> {
    /// What the parser reads.
    pub closed spec fn text(&self) -> StreamText {
        StreamText {
            chars: self.token_stream.chars(),
            len: self.token_stream.source_len(),
            id: self.token_stream.source_id(),
        }
    }

    /// The parser's state beside the context `ctx`.
    pub closed spec fn state(&self, ctx: CompilationContext) -> ParseState {
        ParseState {
            st: self.token_stream.state(),
            peeked: self.peeked,
            current: self.current_token,
            previous: self.previous_token,
            diags: diagnostic_views(ctx.diagnostics()),
            symbols: ctx.symbols(),
        }
    }

    /// The parser is consistent.
    pub closed spec fn wf(&self) -> bool {
        &&& self.token_stream.wf()
        &&& self.source.text@ == self.token_stream.chars()
        &&& self.source.id == self.token_stream.source_id()
        &&& (self.peeked matches Some(Some(t)) ==> token_in_text(self.text(), t))
    }

    /// A parser at the start of `source`, its current and previous tokens
    /// empty `Dummy` tokens at its start.
    pub fn new(source: &'source Source) -> (res: Self)
        requires
            text_bytes(source.text@).len() < usize::MAX,
        ensures
            res.wf(),
            res.text() == (StreamText {
                chars: source.text@,
                len: text_bytes(source.text@).len() as int,
                id: source.id,
            }),
            forall|ctx: CompilationContext| #[trigger] res.state(ctx) == (ParseState {
                st: IterState { index: 0, reached_eof: false },
                peeked: None,
                current: stream_token(source.id, 0, 0, TokenKind::Dummy),
                previous: stream_token(source.id, 0, 0, TokenKind::Dummy),
                diags: diagnostic_views(ctx.diagnostics()),
                symbols: ctx.symbols(),
            }),
    {
        let dummy = Spanned::new(Span::new(source.id, 0, 0), TokenKind::Dummy);
        Parser {
            token_stream: TokenStream::new(source),
            peeked: None,
            source,
            previous_token: dummy,
            current_token: dummy,
        }
    }

    /// What a consistent parser's state satisfies.
    proof fn lemma_valid(&self, ctx: CompilationContext)
        requires
            self.wf(),
        ensures
            valid(self.text(), self.state(ctx)),
    {
        self.token_stream.lemma_wf();
    }

    /// The next token of the stream itself, its unknown characters reported.
    fn read_stream(&mut self, ctx: &mut CompilationContext) -> (res: Option<Token>)
        requires
            old(self).wf(),
        ensures
            final(self).wf(),
            final(self).text() == old(self).text(),
            final(self).peeked == old(self).peeked,
            final(self).current_token == old(self).current_token,
            final(self).previous_token == old(self).previous_token,
            (res, final(self).state(*final(ctx))) == stream_read(old(self).text(), old(self).state(*old(ctx))),
            res matches Some(t) ==> token_in_text(old(self).text(), t),
            progress(old(self).text().chars, final(self).state(*final(ctx)).st) <= progress(old(self).text().chars, old(self).state(*old(ctx)).st),
            res is Some ==> progress(old(self).text().chars, final(self).state(*final(ctx)).st) < progress(old(self).text().chars, old(self).state(*old(ctx)).st),
            final(ctx).symbols() == old(ctx).symbols(),
    {
        proof {
            reveal(stream_read);
            self.token_stream.lemma_wf();
            lemma_stream_progress(
                self.token_stream.chars(),
                self.token_stream.source_len(),
                self.token_stream.source_id(),
                self.token_stream.state(),
            );
        }
        let ghost before = ctx.diagnostics();
        let res = self.token_stream.next_token(ctx);
        proof {
            let (_, _, skipped) = stream_next(
                old(self).text().chars,
                old(self).text().len,
                old(self).text().id,
                old(self).state(*old(ctx)).st,
            );
            assert(diagnostic_views(before + unknown_characters(skipped)) =~= diagnostic_views(before) + lexer_views(skipped));
        }
        res
    }

    /// The token ahead, or the end token once the stream is used up.
    fn peek(&mut self, ctx: &mut CompilationContext) -> (res: Token)
        requires
            old(self).wf(),
        ensures
            final(self).wf(),
            final(self).text() == old(self).text(),
            (res, final(self).state(*final(ctx))) == peek_token(old(self).text(), old(self).state(*old(ctx))),
            measure(old(self).text(), final(self).state(*final(ctx))) <= measure(old(self).text(), old(self).state(*old(ctx))),
            token_in_text(old(self).text(), res),
            final(ctx).symbols() == old(ctx).symbols(),
    {
        proof {
            reveal(raw_peek);
            reveal(peek_token);
            self.token_stream.lemma_wf();
        }
        let peeked = match self.peeked {
            Some(p) => p,
            None => {
                let t = self.read_stream(ctx);
                self.peeked = Some(t);
                t
            },
        };
        match peeked {
            Some(token) => token,
            None => Spanned::new(
                Span::new(self.source.id, self.token_stream.source_length(), self.token_stream.source_length()),
                TokenKind::EndOfFile,
            ),
        }
    }

    /// Moves to the next token (the end token once the stream is used up,
    /// which is then reported).
    fn next(&mut self, ctx: &mut CompilationContext) -> (res: Token)
        requires
            old(self).wf(),
        ensures
            final(self).wf(),
            final(self).text() == old(self).text(),
            (res, final(self).state(*final(ctx))) == next_token(old(self).text(), old(self).state(*old(ctx))),
            measure(old(self).text(), final(self).state(*final(ctx))) <= measure(old(self).text(), old(self).state(*old(ctx))),
            res.node != TokenKind::EndOfFile ==> measure(old(self).text(), final(self).state(*final(ctx))) < measure(
                old(self).text(),
                old(self).state(*old(ctx)),
            ),
            token_in_text(old(self).text(), res),
            final(self).state(*final(ctx)).symbols == old(self).state(*old(ctx)).symbols,
    {
        proof {
            reveal(raw_next);
            reveal(next_token);
            self.token_stream.lemma_wf();
        }
        let taken = match self.peeked {
            Some(p) => {
                self.peeked = None;
                p
            },
            None => self.read_stream(ctx),
        };
        let next_token = match taken {
            Some(token) => token,
            None => {
                let end = self.token_stream.source_length();
                let ghost before = ctx.diagnostics();
                let d = EnviousDiagnostic::ParserDiagnostic(
                    ParserDiagnosticKind::ExpectedKind {
                        span: self.current_token.span,
                        expected_kinds: Vec::new(),
                        found_kind: TokenKind::EndOfFile,
                    },
                );
                proof {
                    assert(d@->ExpectedKind_expected_kinds =~= Seq::<TokenKind>::empty());
                    assert(d@ == expected_view(self.current_token.span, Seq::empty(), TokenKind::EndOfFile));
                }
                ctx.emit_diagnostic(d);
                proof {
                    assert(diagnostic_views(before.push(d)) =~= diagnostic_views(before).push(d@));
                }
                Spanned::new(Span::new(self.source.id, end, end), TokenKind::EndOfFile)
            },
        };
        self.previous_token = self.current_token;
        self.current_token = next_token;
        next_token
    }

    /// Moves to the next token, which must be of one of the kinds
    /// `expected_kinds`; one of another kind is reported.
    fn expect(&mut self, ctx: &mut CompilationContext, expected_kinds: Vec<TokenKind>) -> (res: Option<Token>)
        requires
            old(self).wf(),
        ensures
            final(self).wf(),
            final(self).text() == old(self).text(),
            (res, final(self).state(*final(ctx))) == expect(old(self).text(), old(self).state(*old(ctx)), expected_kinds@),
            measure(old(self).text(), final(self).state(*final(ctx))) <= measure(old(self).text(), old(self).state(*old(ctx))),
            res is Some && !expected_kinds@.contains(TokenKind::EndOfFile) ==> measure(
                old(self).text(),
                final(self).state(*final(ctx)),
            ) < measure(old(self).text(), old(self).state(*old(ctx))),
            res matches Some(t) ==> token_in_text(old(self).text(), t),
            res matches Some(t) ==> expected_kinds@.contains(t.node),
            final(self).state(*final(ctx)).symbols == old(self).state(*old(ctx)).symbols,
    {
        proof {
            reveal(expect);
        }
        let token = self.next(ctx);
        let token_kind = token.node;
        if contains_kind(&expected_kinds, token_kind) {
            Some(token)
        } else {
            let ghost before = ctx.diagnostics();
            let ghost kinds = expected_kinds@;
            let d = EnviousDiagnostic::ParserDiagnostic(
                ParserDiagnosticKind::ExpectedKind { span: token.span, expected_kinds, found_kind: token_kind },
            );
            ctx.emit_diagnostic(d);
            proof {
                assert(diagnostic_views(before.push(d)) =~= diagnostic_views(before).push(d@));
            }
            None
        }
    }

    /// A name: an identifier token, its text interned in `ctx`.
    fn parse_identifier(&mut self, ctx: &mut CompilationContext) -> (res: Option<Identifier>)
        requires
            old(self).wf(),
            old(ctx).symbols().len() + measure(old(self).text(), old(self).state(*old(ctx))) < u32::MAX,
        ensures
            final(self).wf(),
            final(self).text() == old(self).text(),
            (res, final(self).state(*final(ctx))) == identifier(old(self).text(), old(self).state(*old(ctx))),
            measure(old(self).text(), final(self).state(*final(ctx))) <= measure(old(self).text(), old(self).state(*old(ctx))),
            res is Some ==> measure(old(self).text(), final(self).state(*final(ctx))) < measure(
                old(self).text(),
                old(self).state(*old(ctx)),
            ),
            final(ctx).symbols().len() + measure(old(self).text(), final(self).state(*final(ctx))) <= old(ctx).symbols().len()
                + measure(old(self).text(), old(self).state(*old(ctx))),
    {
        proof {
            reveal(identifier);
        }
        let mut kinds: Vec<TokenKind> = Vec::new();
        kinds.push(TokenKind::Identifer);
        proof {
            assert(kinds@ =~= seq![TokenKind::Identifer]);
            assert(!kinds@.contains(TokenKind::EndOfFile)) by {
                if kinds@.contains(TokenKind::EndOfFile) {
                    assert(kinds@[0] == TokenKind::Identifer);
                }
            }
        }
        let identifier_span = match self.expect(ctx, kinds) {
            Some(token) => {
                proof {
                    assert(seq![TokenKind::Identifer].contains(token.node));
                    assert(token.node == TokenKind::Identifer) by {
                        let i = choose|i: int| 0 <= i < 1 && seq![TokenKind::Identifer][i] == token.node;
                    }
                    self.lemma_valid(*ctx);
                }
                token.span
            },
            None => return None,
        };
        let text = self.source.text.as_str().substring_char(identifier_span.start_pos, identifier_span.end_pos);
        proof {
            self.lemma_valid(*ctx);
        }
        let symbol_id = ctx.get_symbol(text);
        Some(Spanned::new(identifier_span, symbol_id))
    }

    /// A type: `Int` or `Bool`.
    fn parse_type(&mut self, ctx: &mut CompilationContext) -> (res: Option<Spanned<Type>>)
        requires
            old(self).wf(),
        ensures
            final(self).wf(),
            final(self).text() == old(self).text(),
            (res, final(self).state(*final(ctx))) == type_of(old(self).text(), old(self).state(*old(ctx))),
            measure(old(self).text(), final(self).state(*final(ctx))) <= measure(old(self).text(), old(self).state(*old(ctx))),
            res is Some ==> measure(old(self).text(), final(self).state(*final(ctx))) < measure(
                old(self).text(),
                old(self).state(*old(ctx)),
            ),
            final(ctx).symbols() == old(ctx).symbols(),
    {
        proof {
            reveal(type_of);
        }
        let mut kinds: Vec<TokenKind> = Vec::new();
        kinds.push(TokenKind::IntType);
        kinds.push(TokenKind::BooleanType);
        proof {
            assert(kinds@ =~= seq![TokenKind::IntType, TokenKind::BooleanType]);
            assert(!kinds@.contains(TokenKind::EndOfFile)) by {
                if kinds@.contains(TokenKind::EndOfFile) {
                    let i = choose|i: int| 0 <= i < kinds@.len() && kinds@[i] == TokenKind::EndOfFile;
                }
            }
        }
        let token = match self.expect(ctx, kinds) {
            Some(token) => token,
            None => return None,
        };
        let ty = match token.node {
            TokenKind::IntType => Type::Int,
            _ => Type::Boolean,
        };
        Some(Spanned::new(token.span, ty))
    }

    /// The parameters of a function, up to (not with) its `)`.
    fn parse_parameters(&mut self, ctx: &mut CompilationContext) -> (res: Option<Vec<Parameter>>)
        requires
            old(self).wf(),
            old(ctx).symbols().len() + measure(old(self).text(), old(self).state(*old(ctx))) < u32::MAX,
        ensures
            final(self).wf(),
            final(self).text() == old(self).text(),
            (match res {
                Some(v) => Some(v@),
                None => None,
            }, final(self).state(*final(ctx))) == parameters_from(old(self).text(), old(self).state(*old(ctx)), Seq::empty(), true),
            measure(old(self).text(), final(self).state(*final(ctx))) <= measure(old(self).text(), old(self).state(*old(ctx))),
            final(ctx).symbols().len() + measure(old(self).text(), final(self).state(*final(ctx))) <= old(ctx).symbols().len()
                + measure(old(self).text(), old(self).state(*old(ctx))),
    {
        let ghost c = self.text();
        let mut parameters: Vec<Parameter> = Vec::new();
        let mut is_first_parameter = true;
        loop
            invariant
                self.wf(),
                self.text() == c,
                c == old(self).text(),
                parameters_from(c, old(self).state(*old(ctx)), Seq::empty(), true) == parameters_from(
                    c,
                    self.state(*ctx),
                    parameters@,
                    is_first_parameter,
                ),
                measure(c, self.state(*ctx)) <= measure(c, old(self).state(*old(ctx))),
                ctx.symbols().len() + measure(c, self.state(*ctx)) <= old(ctx).symbols().len() + measure(
                    c,
                    old(self).state(*old(ctx)),
                ),
                old(ctx).symbols().len() + measure(c, old(self).state(*old(ctx))) < u32::MAX,
            decreases measure(c, self.state(*ctx)),
        {
            proof {
                self.lemma_valid(*ctx);
            }
            let ghost s0 = self.state(*ctx);
            let token = self.peek(ctx);
            let leading_comma = if token.node == TokenKind::RightParenthesis {
                return Some(parameters);
            } else if token.node == TokenKind::Comma && !is_first_parameter {
                let comma = self.next(ctx);
                Some(comma.span)
            } else if token.node == TokenKind::Identifer && is_first_parameter {
                is_first_parameter = false;
                None
            } else {
                let mut expected_kinds: Vec<TokenKind> = Vec::new();
                if is_first_parameter {
                    expected_kinds.push(TokenKind::Identifer);
                } else {
                    expected_kinds.push(TokenKind::Comma);
                }
                expected_kinds.push(TokenKind::RightParenthesis);
                proof {
                    if is_first_parameter {
                        assert(expected_kinds@ =~= seq![TokenKind::Identifer, TokenKind::RightParenthesis]);
                    } else {
                        assert(expected_kinds@ =~= seq![TokenKind::Comma, TokenKind::RightParenthesis]);
                    }
                }
                let ghost before = ctx.diagnostics();
                let d = EnviousDiagnostic::ParserDiagnostic(
                    ParserDiagnosticKind::ExpectedKind { span: token.span, expected_kinds, found_kind: token.node },
                );
                proof {
                    if is_first_parameter {
                        assert(d@->ExpectedKind_expected_kinds =~= seq![TokenKind::Identifer, TokenKind::RightParenthesis]);
                        assert(d@ == expected_view(token.span, seq![TokenKind::Identifer, TokenKind::RightParenthesis], token.node));
                    } else {
                        assert(d@->ExpectedKind_expected_kinds =~= seq![TokenKind::Comma, TokenKind::RightParenthesis]);
                        assert(d@ == expected_view(token.span, seq![TokenKind::Comma, TokenKind::RightParenthesis], token.node));
                    }
                }
                ctx.emit_diagnostic(d);
                proof {
                    assert(diagnostic_views(before.push(d)) =~= diagnostic_views(before).push(d@));
                }
                return Some(parameters);
            };
            proof {
                self.lemma_valid(*ctx);
            }
            let parameter = match self.parse_parameter(ctx, leading_comma) {
                Some(p) => p,
                None => return None,
            };
            parameters.push(parameter);
            proof {
                self.lemma_valid(*ctx);
            }
        }
    }

    /// One parameter, `name: Type`, after the comma `leading_comma` (if
    /// any).
    fn parse_parameter(&mut self, ctx: &mut CompilationContext, leading_comma: Option<Span>) -> (res: Option<Parameter>)
        requires
            old(self).wf(),
            old(ctx).symbols().len() + measure(old(self).text(), old(self).state(*old(ctx))) < u32::MAX,
        ensures
            final(self).wf(),
            final(self).text() == old(self).text(),
            (res, final(self).state(*final(ctx))) == one_parameter(old(self).text(), old(self).state(*old(ctx)), leading_comma),
            measure(old(self).text(), final(self).state(*final(ctx))) <= measure(old(self).text(), old(self).state(*old(ctx))),
            res is Some ==> measure(old(self).text(), final(self).state(*final(ctx))) < measure(
                old(self).text(),
                old(self).state(*old(ctx)),
            ),
            final(ctx).symbols().len() + measure(old(self).text(), final(self).state(*final(ctx))) <= old(ctx).symbols().len()
                + measure(old(self).text(), old(self).state(*old(ctx))),
    {
        proof {
            reveal(one_parameter);
        }
        let name = match self.parse_identifier(ctx) {
            Some(name) => name,
            None => return None,
        };
        let mut colon_kinds: Vec<TokenKind> = Vec::new();
        colon_kinds.push(TokenKind::Colon);
        proof {
            assert(colon_kinds@ =~= seq![TokenKind::Colon]);
        }
        let colon = match self.expect(ctx, colon_kinds) {
            Some(token) => token.span,
            None => return None,
        };
        let ty = match self.parse_type(ctx) {
            Some(ty) => ty,
            None => return None,
        };
        Some(Parameter { leading_comma, name, colon, ty })
    }

    /// A function signature, its `define` already read.
    fn parse_function(&mut self, ctx: &mut CompilationContext) -> (res: Option<Function>)
        requires
            old(self).wf(),
            old(ctx).symbols().len() + measure(old(self).text(), old(self).state(*old(ctx))) < u32::MAX,
        ensures
            final(self).wf(),
            final(self).text() == old(self).text(),
            (match res {
                Some(f) => Some(f@),
                None => None,
            }, final(self).state(*final(ctx))) == function(old(self).text(), old(self).state(*old(ctx))),
            measure(old(self).text(), final(self).state(*final(ctx))) <= measure(old(self).text(), old(self).state(*old(ctx))),
            final(ctx).symbols().len() + measure(old(self).text(), final(self).state(*final(ctx))) <= old(ctx).symbols().len()
                + measure(old(self).text(), old(self).state(*old(ctx))),
    {
        let define_keyword = self.current_token.span;
        let name = match self.parse_identifier(ctx) {
            Some(name) => name,
            None => return None,
        };
        let mut kinds: Vec<TokenKind> = Vec::new();
        kinds.push(TokenKind::LeftParenthesis);
        proof {
            assert(kinds@ =~= seq![TokenKind::LeftParenthesis]);
        }
        let left_parenthesis = match self.expect(ctx, kinds) {
            Some(token) => token.span,
            None => return None,
        };
        let parameters = match self.parse_parameters(ctx) {
            Some(p) => p,
            None => return None,
        };
        let mut kinds: Vec<TokenKind> = Vec::new();
        kinds.push(TokenKind::RightParenthesis);
        proof {
            assert(kinds@ =~= seq![TokenKind::RightParenthesis]);
        }
        let right_parenthesis = match self.expect(ctx, kinds) {
            Some(token) => token.span,
            None => return None,
        };
        let mut kinds: Vec<TokenKind> = Vec::new();
        kinds.push(TokenKind::Equal);
        proof {
            assert(kinds@ =~= seq![TokenKind::Equal]);
        }
        let equal_sign = match self.expect(ctx, kinds) {
            Some(token) => token.span,
            None => return None,
        };
        Some(Function { define_keyword, name, left_parenthesis, parameters, right_parenthesis, equal_sign })
    }

    /// The function signatures of the source; what cannot start one is
    /// reported to `ctx` and skipped.
    pub fn parse(&mut self, ctx: &mut CompilationContext) -> (res: Program)
        requires
            old(self).wf(),
            old(ctx).symbols().len() + measure(old(self).text(), old(self).state(*old(ctx))) < u32::MAX,
        ensures
            final(self).wf(),
            final(self).text() == old(self).text(),
            (program_view(res), final(self).state(*final(ctx))) == program_from(
                old(self).text(),
                old(self).state(*old(ctx)),
                Seq::empty(),
            ),
    {
        let ghost c = self.text();
        let mut functions: Vec<Function> = Vec::new();
        proof {
            assert(functions@.map_values(|f: Function| f@) =~= Seq::<FunctionSignature>::empty());
        }
        loop
            invariant
                self.wf(),
                self.text() == c,
                c == old(self).text(),
                program_from(c, old(self).state(*old(ctx)), Seq::empty()) == program_from(
                    c,
                    self.state(*ctx),
                    functions@.map_values(|f: Function| f@),
                ),
                ctx.symbols().len() + measure(c, self.state(*ctx)) <= old(ctx).symbols().len() + measure(
                    c,
                    old(self).state(*old(ctx)),
                ),
                old(ctx).symbols().len() + measure(c, old(self).state(*old(ctx))) < u32::MAX,
            decreases measure(c, self.state(*ctx)),
        {
            proof {
                self.lemma_valid(*ctx);
            }
            let token = self.next(ctx);
            match token.node {
                TokenKind::EndOfFile => {
                    return Program { functions };
                },
                TokenKind::Define => {
                    proof {
                        self.lemma_valid(*ctx);
                    }
                    let ghost earlier = functions@;
                    if let Some(function) = self.parse_function(ctx) {
                        let ghost fv = function@;
                        functions.push(function);
                        proof {
                            assert(functions@.map_values(|f: Function| f@) =~= earlier.map_values(|f: Function| f@).push(fv));
                        }
                    }
                },
                found_kind => {
                    let mut expected_kinds: Vec<TokenKind> = Vec::new();
                    expected_kinds.push(TokenKind::Define);
                    proof {
                        assert(expected_kinds@ =~= seq![TokenKind::Define]);
                    }
                    let ghost before = ctx.diagnostics();
                    let d = EnviousDiagnostic::ParserDiagnostic(
                        ParserDiagnosticKind::ExpectedKind { span: token.span, expected_kinds, found_kind },
                    );
                    proof {
                        assert(d@->ExpectedKind_expected_kinds =~= seq![TokenKind::Define]);
                        assert(d@ == expected_view(token.span, seq![TokenKind::Define], found_kind));
                    }
                    ctx.emit_diagnostic(d);
                    proof {
                        assert(diagnostic_views(before.push(d)) =~= diagnostic_views(before).push(d@));
                    }
                },
            }
            proof {
                self.lemma_valid(*ctx);
            }
        }
    }
}

/// Whether `kinds` holds `kind`.
fn contains_kind(kinds: &Vec<TokenKind>, kind: TokenKind) -> (res: bool)
    ensures
        res == kinds@.contains(kind),
{
    let mut i: usize = 0;
    while i < kinds.len()
        invariant
            i <= kinds@.len(),
            forall|j: int| 0 <= j < i ==> kinds@[j] != kind,
        decreases kinds@.len() - i,
    {
        if kinds[i] == kind {
            return true;
        }
        i = i + 1;
    }
    false
}

} // verus!
