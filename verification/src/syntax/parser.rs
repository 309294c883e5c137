//! The signature parser: reads `define name(a, b) =` signatures from a list
//! of tokens ending with the end-of-file token. A token that is not the one
//! expected is complained about and stands in for it, so that parsing goes
//! on; the complaints become diagnostics.

use vstd::prelude::*;

use crate::diagnostic::error::{Diagnostic, DiagnosticMessage, Level};
use crate::lexer::token::{Token, TokenKind};
use crate::source::snippet::Snippet;
use crate::syntax::ast::{member_views, Function, FunctionView, Member, MemberView, Parameter, Program, SnippetedSymbol};
use crate::text::push_str;

verus! {

/// A token of kind `found` read over `snippet` where one of kind `expected`
/// was wanted.
#[derive(Debug, Clone, Copy, PartialEq, Eq, Structural)]
pub struct Complaint {
    pub snippet: Snippet,
    pub expected: TokenKind,
    pub found: TokenKind,
}

/// Where the parser stands in its tokens, and what it has complained about.
pub struct ParseState {
    pub pos: int,
    pub complaints: Seq<Complaint>,
}

/// The token at `pos`; past the end, the last token.
pub open spec fn current(tokens: Seq<Token>, pos: int) -> Token {
    if pos < tokens.len() {
        tokens[pos]
    } else {
        tokens.last()
    }
}

/// One token further on.
pub open spec fn advanced(s: ParseState) -> ParseState {
    ParseState { pos: s.pos + 1, ..s }
}

/// The state with the complaint that `found` stood over `snippet` where
/// `expected` was wanted.
pub open spec fn complained(s: ParseState, snippet: Snippet, expected: TokenKind, found: TokenKind) -> ParseState {
    ParseState { complaints: s.complaints.push(Complaint { snippet, expected, found }), ..s }
}

/// The token of kind `kind`: the current one, read, if it has that kind;
/// else, after a complaint, a token of that kind over the current one's
/// snippet, nothing read.
pub open spec fn expect_spec(tokens: Seq<Token>, s: ParseState, kind: TokenKind) -> (Token, ParseState) {
    let c = current(tokens, s.pos);
    if c.kind == kind {
        (c, advanced(s))
    } else {
        (Token { snippet: c.snippet, kind }, complained(s, c.snippet, kind, c.kind))
    }
}

/// A name: the current token, read, if it is an identifier; else, after a
/// complaint, the symbol zero over the current token's snippet.
pub open spec fn identifier_spec(tokens: Seq<Token>, s: ParseState) -> (SnippetedSymbol, ParseState) {
    let c = current(tokens, s.pos);
    match c.kind {
        TokenKind::Identifer(symbol) => (SnippetedSymbol { snippet: c.snippet, symbol }, advanced(s)),
        _ => (SnippetedSymbol { snippet: c.snippet, symbol: 0 }, complained(s, c.snippet, TokenKind::Identifer(0), c.kind)),
    }
}

/// The parameters after those of `acc`, each a comma and a name, up to the
/// `)`; `None` where that never ends: no token is read and no `)` comes.
pub open spec fn parameters_after(tokens: Seq<Token>, s: ParseState, acc: Seq<Parameter>) -> Option<(Seq<Parameter>, ParseState)>
    decreases tokens.len() + 1 - s.pos,
{
    if current(tokens, s.pos).kind == TokenKind::RightParenthesis {
        Some((acc, s))
    } else if s.pos >= tokens.len() {
        None
    } else {
        let s1 = expect_spec(tokens, s, TokenKind::Comma).1;
        let (name, s2) = identifier_spec(tokens, s1);
        if s2.pos <= s.pos {
            None
        } else {
            parameters_after(tokens, s2, acc.push(Parameter { name }))
        }
    }
}

/// The parameters of a function, from just after its `(` up to the `)`.
pub open spec fn parameter_list(tokens: Seq<Token>, s: ParseState) -> Option<(Seq<Parameter>, ParseState)> {
    if current(tokens, s.pos).kind == TokenKind::RightParenthesis {
        Some((Seq::empty(), s))
    } else {
        let (name, s1) = identifier_spec(tokens, s);
        parameters_after(tokens, s1, seq![Parameter { name }])
    }
}

/// Reading parameters never goes back.
pub proof fn lemma_parameters_after_forward(tokens: Seq<Token>, s: ParseState, acc: Seq<Parameter>)
    ensures
        parameters_after(tokens, s, acc) matches Some((_, s1)) ==> s1.pos >= s.pos,
    decreases tokens.len() + 1 - s.pos,
{
    if current(tokens, s.pos).kind != TokenKind::RightParenthesis && s.pos < tokens.len() {
        let s1 = expect_spec(tokens, s, TokenKind::Comma).1;
        let (name, s2) = identifier_spec(tokens, s1);
        if s2.pos > s.pos {
            lemma_parameters_after_forward(tokens, s2, acc.push(Parameter { name }));
        }
    }
}

/// Reading a parameter list never goes back.
pub proof fn lemma_parameter_list_forward(tokens: Seq<Token>, s: ParseState)
    ensures
        parameter_list(tokens, s) matches Some((_, s1)) ==> s1.pos >= s.pos,
{
    if current(tokens, s.pos).kind != TokenKind::RightParenthesis {
        let (name, s1) = identifier_spec(tokens, s);
        lemma_parameters_after_forward(tokens, s1, seq![Parameter { name }]);
    }
}

/// A signature: `define`, a name, `(`, the parameters, `)` and `=`.
pub open spec fn function_spec(tokens: Seq<Token>, s: ParseState) -> Option<(FunctionView, ParseState)> {
    let (define_keyword, s1) = expect_spec(tokens, s, TokenKind::Define);
    let (identifier, s2) = identifier_spec(tokens, s1);
    let (left_parenthesis, s3) = expect_spec(tokens, s2, TokenKind::LeftParenthesis);
    match parameter_list(tokens, s3) {
        None => None,
        Some((parameters, s4)) => {
            let (right_parenthesis, s5) = expect_spec(tokens, s4, TokenKind::RightParenthesis);
            let (equal_sign, s6) = expect_spec(tokens, s5, TokenKind::Equal);
            Some(
                (
                    FunctionView {
                        define_keyword: define_keyword.snippet,
                        identifier,
                        left_parenthesis: left_parenthesis.snippet,
                        parameters,
                        right_parenthesis: right_parenthesis.snippet,
                        equal_sign: equal_sign.snippet,
                    },
                    s6,
                ),
            )
        },
    }
}

/// Reading a signature that starts with `define` moves on.
pub proof fn lemma_function_forward(tokens: Seq<Token>, s: ParseState)
    requires
        current(tokens, s.pos).kind == TokenKind::Define,
    ensures
        function_spec(tokens, s) matches Some((_, s1)) ==> s1.pos > s.pos,
{
    let s1 = expect_spec(tokens, s, TokenKind::Define).1;
    let s2 = identifier_spec(tokens, s1).1;
    let s3 = expect_spec(tokens, s2, TokenKind::LeftParenthesis).1;
    lemma_parameter_list_forward(tokens, s3);
}

/// The members after those of `acc`, up to the end-of-file token; `None`
/// where parsing never ends or stops on a member other than a function
/// (global statements are not parsed).
pub open spec fn members_from(tokens: Seq<Token>, s: ParseState, acc: Seq<MemberView>) -> Option<(Seq<MemberView>, ParseState)>
    decreases tokens.len() - s.pos,
{
    let start = current(tokens, s.pos);
    if start.kind == TokenKind::EndOfFile {
        Some((acc, s))
    } else if s.pos >= tokens.len() || start.kind != TokenKind::Define {
        None
    } else {
        match function_spec(tokens, s) {
            None => None,
            Some((f, s1)) => {
                let s2 = if current(tokens, s1.pos) == start { advanced(s1) } else { s1 };
                let acc2 = acc.push(MemberView::Function(f));
                if s2.pos >= tokens.len() {
                    if current(tokens, s2.pos).kind == TokenKind::EndOfFile {
                        Some((acc2, s2))
                    } else {
                        None
                    }
                } else {
                    proof {
                        lemma_function_forward(tokens, s);
                    }
                    members_from(tokens, s2, acc2)
                }
            },
        }
    }
}

/// A whole program: its members, then the end-of-file token.
pub open spec fn program_spec(tokens: Seq<Token>, s: ParseState) -> Option<(Seq<MemberView>, ParseState)> {
    match members_from(tokens, s, Seq::empty()) {
        None => None,
        Some((members, s1)) => Some((members, expect_spec(tokens, s1, TokenKind::EndOfFile).1)),
    }
}

/// The footer of the diagnostic for complaint `c`: what was expected and
/// what was found, and a hint about the encoding when the end of the file
/// was expected.
pub open spec fn complaint_footer(c: Complaint) -> Seq<(Level, Seq<char>)> {
    let found = seq![
        (Level::Warning, "expected a(n) "@ + c.expected.text() + " but found a(n) "@ + c.found.text() + " instead"@),
    ];
    if c.expected == TokenKind::EndOfFile {
        found.push((Level::Hint, "there might be an issue with the source encoding"@))
    } else {
        found
    }
}

/// `d` is the diagnostic of complaint `c`: an error over its snippet with
/// the message "unexpected {} found" and its footer.
pub open spec fn describes(d: Diagnostic, c: Complaint) -> bool {
    &&& d.level() == Level::Error
    &&& d.messages() == seq!["unexpected {} found"@]
    &&& d.snippet() == c.snippet
    &&& d.child_count() == 0
    &&& d.footer() == complaint_footer(c)
}

impl Complaint {
    /// The diagnostic of the complaint.
    pub fn to_diagnostic(&self) -> (res: Diagnostic)
        ensures
            describes(res, *self),
    {
        let messages: Vec<DiagnosticMessage> = vec!["unexpected {} found".to_owned()];
        proof {
            assert(messages@.map_values(|m: DiagnosticMessage| m@) =~= seq!["unexpected {} found"@]);
        }
        let mut found = String::new();
        push_str(&mut found, "expected a(n) ");
        push_str(&mut found, self.expected.description());
        push_str(&mut found, " but found a(n) ");
        push_str(&mut found, self.found.description());
        push_str(&mut found, " instead");
        let ghost found_text = found@;
        let diagnostic = Diagnostic::new(Level::Error, messages, self.snippet).add_footer(Level::Warning, found);
        proof {
            assert(diagnostic.footer() =~= seq![(Level::Warning, found_text)]);
        }
        if self.expected == TokenKind::EndOfFile {
            let hint = "there might be an issue with the source encoding".to_owned();
            let res = diagnostic.add_footer(Level::Hint, hint);
            proof {
                assert(res.footer() =~= complaint_footer(*self));
            }
            res
        } else {
            diagnostic
        }
    }
}

/// Reads signatures from a list of tokens.
#[derive(Debug)]
pub struct Parser {
    next_position: usize,
    tokens: Vec<Token>,
    complaints: Vec<Complaint>,
}

impl Parser {
    /// The tokens.
    pub closed spec fn tokens(&self) -> Seq<Token> {
        self.tokens@
    }

    /// Where the parser stands and what it has complained about.
    pub closed spec fn state(&self) -> ParseState {
        ParseState { pos: self.next_position as int, complaints: self.complaints@ }
    }

    /// A parser at the first of `tokens`, with no complaint.
    pub fn new(tokens: Vec<Token>) -> (res: Parser)
        ensures
            res.tokens() == tokens@,
            res.state() == (ParseState { pos: 0, complaints: Seq::empty() }),
    {
        Parser { next_position: 0, tokens, complaints: Vec::new() }
    }

    /// The diagnostics of the complaints made, in order.
    pub fn diagnostics(&self) -> (res: Vec<Diagnostic>)
        ensures
            res@.len() == self.state().complaints.len(),
            forall|i: int| 0 <= i < res@.len() ==> describes(#[trigger] res@[i], self.state().complaints[i]),
    {
        let mut res: Vec<Diagnostic> = Vec::new();
        let mut i: usize = 0;
        while i < self.complaints.len()
            invariant
                i <= self.complaints@.len(),
                res@.len() == i,
                forall|k: int| 0 <= k < i ==> describes(#[trigger] res@[k], self.complaints@[k]),
            decreases self.complaints@.len() - i,
        {
            res.push(self.complaints[i].to_diagnostic());
            i = i + 1;
        }
        res
    }

    /// The token at `idx`; past the end, the last token.
    fn token_at(&self, idx: usize) -> (res: Token)
        requires
            self.tokens@.len() > 0,
        ensures
            res == current(self.tokens@, idx as int),
    {
        if idx >= self.tokens.len() {
            self.tokens[self.tokens.len() - 1]
        } else {
            self.tokens[idx]
        }
    }

    /// The token `offset` places after the current one; past the end, the
    /// last token.
    fn peek(&self, offset: usize) -> (res: Token)
        requires
            self.tokens@.len() > 0,
            self.next_position + offset <= usize::MAX,
        ensures
            res == current(self.tokens@, self.next_position + offset),
    {
        self.token_at(self.next_position + offset)
    }

    /// Where expecting a token of kind `kind` at `s` leaves the parser (see
    /// `expect_spec`), without reading or complaining.
    fn expect_position(&self, pos: usize, kind: TokenKind, Ghost(s): Ghost<ParseState>) -> (res: usize)
        requires
            self.tokens@.len() > 0,
            s.pos == pos,
            pos < usize::MAX,
        ensures
            res == expect_spec(self.tokens@, s, kind).1.pos,
    {
        if self.token_at(pos).kind == kind {
            pos + 1
        } else {
            pos
        }
    }

    /// Where reading a name at `s` leaves the parser (see
    /// `identifier_spec`), without reading or complaining.
    fn identifier_position(&self, pos: usize, Ghost(s): Ghost<ParseState>) -> (res: usize)
        requires
            self.tokens@.len() > 0,
            s.pos == pos,
            pos < usize::MAX,
        ensures
            res == identifier_spec(self.tokens@, s).1.pos,
    {
        match self.token_at(pos).kind {
            TokenKind::Identifer(_) => pos + 1,
            _ => pos,
        }
    }

    /// Where the parameter list from `s` ends, if it does (see
    /// `parameter_list`), without reading or complaining.
    fn parameter_list_end(&self, pos: usize, Ghost(s): Ghost<ParseState>) -> (res: Option<usize>)
        requires
            self.tokens@.len() > 0,
            self.tokens@.len() + 16 <= usize::MAX,
            s.pos == pos,
            pos <= self.tokens@.len() + 3,
        ensures
            match res {
                None => parameter_list(self.tokens@, s) is None,
                Some(end) => parameter_list(self.tokens@, s) matches Some((_, s1)) && s1.pos == end && end
                    <= self.tokens@.len() + 4,
            },
    {
        let ghost tokens = self.tokens@;
        if self.token_at(pos).kind == TokenKind::RightParenthesis {
            return Some(pos);
        }
        let ghost mut gs = identifier_spec(tokens, s).1;
        let ghost mut acc = seq![Parameter { name: identifier_spec(tokens, s).0 }];
        let mut p = self.identifier_position(pos, Ghost(s));
        let ghost goal = parameters_after(tokens, gs, acc);
        while self.token_at(p).kind != TokenKind::RightParenthesis
            invariant
                self.tokens@ == tokens,
                tokens.len() > 0,
                tokens.len() + 16 <= usize::MAX,
                gs.pos == p,
                p <= tokens.len() + 4,
                parameters_after(tokens, gs, acc) == goal,
                goal == parameter_list(tokens, s),
            decreases tokens.len() + 1 - p,
        {
            if p >= self.tokens.len() {
                return None;
            }
            let before = p;
            let ghost s1 = expect_spec(tokens, gs, TokenKind::Comma).1;
            p = self.expect_position(p, TokenKind::Comma, Ghost(gs));
            let ghost name = identifier_spec(tokens, s1).0;
            let ghost s2 = identifier_spec(tokens, s1).1;
            p = self.identifier_position(p, Ghost(s1));
            if p <= before {
                return None;
            }
            proof {
                acc = acc.push(Parameter { name });
                gs = s2;
            }
        }
        Some(p)
    }

    /// Where the signature at `s` ends, if it does (see `function_spec`),
    /// without reading or complaining.
    fn function_end(&self, pos: usize, Ghost(s): Ghost<ParseState>) -> (res: Option<usize>)
        requires
            self.tokens@.len() > 0,
            self.tokens@.len() + 16 <= usize::MAX,
            s.pos == pos,
            pos < self.tokens@.len(),
        ensures
            match res {
                None => function_spec(self.tokens@, s) is None,
                Some(end) => function_spec(self.tokens@, s) matches Some((_, s1)) && s1.pos == end && end
                    <= self.tokens@.len() + 6,
            },
    {
        let ghost tokens = self.tokens@;
        let ghost s1 = expect_spec(tokens, s, TokenKind::Define).1;
        let p1 = self.expect_position(pos, TokenKind::Define, Ghost(s));
        let ghost s2 = identifier_spec(tokens, s1).1;
        let p2 = self.identifier_position(p1, Ghost(s1));
        let ghost s3 = expect_spec(tokens, s2, TokenKind::LeftParenthesis).1;
        let p3 = self.expect_position(p2, TokenKind::LeftParenthesis, Ghost(s2));
        match self.parameter_list_end(p3, Ghost(s3)) {
            None => None,
            Some(p4) => {
                let ghost s4 = parameter_list(tokens, s3)->Some_0.1;
                let ghost s5 = expect_spec(tokens, s4, TokenKind::RightParenthesis).1;
                let p5 = self.expect_position(p4, TokenKind::RightParenthesis, Ghost(s4));
                Some(self.expect_position(p5, TokenKind::Equal, Ghost(s5)))
            },
        }
    }

    /// Whether the tokens from the current one on make a program: reading
    /// signatures comes to the end-of-file token (see `program_spec`).
    /// Nothing is read and nothing complained about.
    pub fn can_parse(&self) -> (res: bool)
        requires
            self.tokens().len() > 0,
            self.tokens().len() + self.state().pos + 16 <= usize::MAX,
        ensures
            res == program_spec(self.tokens(), self.state()) is Some,
    {
        let ghost tokens = self.tokens@;
        let ghost mut gs = self.state();
        let ghost mut acc = Seq::<MemberView>::empty();
        let ghost goal = members_from(tokens, gs, acc);
        let mut p = self.next_position;
        let ghost bound = tokens.len() + p + 8;
        while self.token_at(p).kind != TokenKind::EndOfFile
            invariant
                self.tokens@ == tokens,
                tokens.len() > 0,
                bound + 8 <= usize::MAX,
                tokens.len() + 8 <= bound,
                gs.pos == p,
                p <= bound,
                members_from(tokens, gs, acc) == goal,
                program_spec(tokens, self.state()) is Some <==> goal is Some,
            decreases bound - p,
        {
            let start = self.token_at(p);
            if p >= self.tokens.len() || start.kind != TokenKind::Define {
                return false;
            }
            match self.function_end(p, Ghost(gs)) {
                None => return false,
                Some(p1) => {
                    let ghost f = function_spec(tokens, gs)->Some_0.0;
                    let ghost s1 = function_spec(tokens, gs)->Some_0.1;
                    let p2 = if self.token_at(p1) == start {
                        p1 + 1
                    } else {
                        p1
                    };
                    let ghost s2 = if current(tokens, s1.pos) == start {
                        advanced(s1)
                    } else {
                        s1
                    };
                    if p2 >= self.tokens.len() {
                        return self.token_at(p2).kind == TokenKind::EndOfFile;
                    }
                    proof {
                        lemma_function_forward(tokens, gs);
                        acc = acc.push(MemberView::Function(f));
                        gs = s2;
                    }
                    p = p2;
                },
            }
        }
        true
    }

    /// The program of the tokens from the current one on, where they make
    /// one (see `parse`); else nothing, and the parser is left as it was.
    pub fn try_parse(&mut self) -> (res: Option<Program>)
        requires
            old(self).tokens().len() > 0,
            old(self).tokens().len() + old(self).state().pos + 16 <= usize::MAX,
        ensures
            final(self).tokens() == old(self).tokens(),
            match res {
                None => program_spec(old(self).tokens(), old(self).state()) is None && final(self).state()
                    == old(self).state(),
                Some(program) => program_spec(old(self).tokens(), old(self).state()) == Some(
                    (member_views(program.members@), final(self).state()),
                ),
            },
    {
        if self.can_parse() {
            Some(self.parse())
        } else {
            None
        }
    }

    /// The current token.
    fn current(&self) -> (res: Token)
        requires
            self.tokens@.len() > 0,
        ensures
            res == current(self.tokens@, self.next_position as int),
    {
        self.peek(0)
    }

    /// The current token, read.
    fn next(&mut self) -> (res: Token)
        requires
            old(self).tokens@.len() > 0,
            old(self).next_position < usize::MAX,
        ensures
            res == current(old(self).tokens@, old(self).next_position as int),
            final(self).tokens@ == old(self).tokens@,
            final(self).state() == advanced(old(self).state()),
    {
        let token = self.current();
        self.next_position = self.next_position + 1;
        token
    }

    /// The token of kind `kind` (see `expect_spec`).
    fn expect(&mut self, kind: TokenKind) -> (res: Token)
        requires
            old(self).tokens@.len() > 0,
            old(self).next_position < usize::MAX,
        ensures
            final(self).tokens@ == old(self).tokens@,
            (res, final(self).state()) == expect_spec(old(self).tokens@, old(self).state(), kind),
    {
        let current = self.current();
        if current.kind == kind {
            self.next()
        } else {
            self.complaints.push(Complaint { snippet: current.snippet, expected: kind, found: current.kind });
            Token::new(current.snippet, kind)
        }
    }

    /// A name (see `identifier_spec`).
    fn parse_identifier(&mut self) -> (res: SnippetedSymbol)
        requires
            old(self).tokens@.len() > 0,
            old(self).next_position < usize::MAX,
        ensures
            final(self).tokens@ == old(self).tokens@,
            (res, final(self).state()) == identifier_spec(old(self).tokens@, old(self).state()),
    {
        let current = self.current();
        match current.kind {
            TokenKind::Identifer(symbol) => {
                self.next();
                SnippetedSymbol::new(current.snippet, symbol)
            },
            _ => {
                self.complaints.push(
                    Complaint { snippet: current.snippet, expected: TokenKind::Identifer(0), found: current.kind },
                );
                SnippetedSymbol::new(current.snippet, 0)
            },
        }
    }

    /// The parameters up to the `)` (see `parameter_list`).
    fn parse_parameter_list(&mut self) -> (res: Vec<Parameter>)
        requires
            old(self).tokens@.len() > 0,
            old(self).tokens@.len() + 16 <= usize::MAX,
            old(self).next_position <= old(self).tokens@.len() + 3,
            parameter_list(old(self).tokens@, old(self).state()) is Some,
        ensures
            final(self).tokens@ == old(self).tokens@,
            final(self).next_position <= old(self).tokens@.len() + 4,
            parameter_list(old(self).tokens@, old(self).state()) == Some((res@, final(self).state())),
    {
        let ghost tokens = self.tokens@;
        let mut parameters: Vec<Parameter> = Vec::new();
        if self.current().kind != TokenKind::RightParenthesis {
            let name = self.parse_identifier();
            parameters.push(Parameter::new(name));
            proof {
                assert(parameters@ =~= seq![Parameter { name }]);
            }
            let ghost goal = parameters_after(tokens, self.state(), parameters@);
            while self.current().kind != TokenKind::RightParenthesis
                invariant
                    self.tokens@ == tokens,
                    tokens.len() > 0,
                    tokens.len() + 16 <= usize::MAX,
                    self.next_position <= tokens.len() + 4,
                    goal is Some,
                    parameters_after(tokens, self.state(), parameters@) == goal,
                decreases tokens.len() + 1 - self.next_position,
            {
                let ghost before = self.state();
                let ghost before_params = parameters@;
                let _ = self.expect(TokenKind::Comma);
                let name = self.parse_identifier();
                parameters.push(Parameter::new(name));
                proof {
                    assert(before.pos < tokens.len());
                    assert(self.state().pos > before.pos);
                    assert(parameters@ == before_params.push(Parameter { name }));
                }
            }
        }
        parameters
    }

    /// A signature (see `function_spec`).
    fn parse_function(&mut self) -> (res: Function)
        requires
            old(self).tokens@.len() > 0,
            old(self).tokens@.len() + 16 <= usize::MAX,
            old(self).next_position < old(self).tokens@.len(),
            function_spec(old(self).tokens@, old(self).state()) is Some,
        ensures
            final(self).tokens@ == old(self).tokens@,
            final(self).next_position <= old(self).tokens@.len() + 6,
            function_spec(old(self).tokens@, old(self).state()) == Some((res@, final(self).state())),
    {
        let define_keyword = self.expect(TokenKind::Define);
        let identifier = self.parse_identifier();
        let left_parenthesis = self.expect(TokenKind::LeftParenthesis);
        let parameters = self.parse_parameter_list();
        let right_parenthesis = self.expect(TokenKind::RightParenthesis);
        let equal_sign = self.expect(TokenKind::Equal);
        Function::new(
            define_keyword.snippet,
            identifier,
            left_parenthesis.snippet,
            parameters,
            right_parenthesis.snippet,
            equal_sign.snippet,
        )
    }

    /// A member, which must be a function (global statements are not parsed).
    fn parse_member(&mut self) -> (res: Member)
        requires
            old(self).tokens@.len() > 0,
            old(self).tokens@.len() + 16 <= usize::MAX,
            old(self).next_position < old(self).tokens@.len(),
            current(old(self).tokens@, old(self).next_position as int).kind == TokenKind::Define,
            function_spec(old(self).tokens@, old(self).state()) is Some,
        ensures
            final(self).tokens@ == old(self).tokens@,
            final(self).next_position <= old(self).tokens@.len() + 6,
            function_spec(old(self).tokens@, old(self).state()) matches Some((f, s))
                && res@ == MemberView::Function(f) && final(self).state() == s,
    {
        Member::Function(self.parse_function())
    }

    /// The program of the tokens from the current one on: its functions, up
    /// to the end-of-file token, which is read last (see `program_spec`).
    /// Each token that is not the one expected is complained about.
    pub fn parse(&mut self) -> (res: Program)
        requires
            old(self).tokens().len() > 0,
            old(self).tokens().len() + old(self).state().pos + 16 <= usize::MAX,
            program_spec(old(self).tokens(), old(self).state()) is Some,
        ensures
            final(self).tokens() == old(self).tokens(),
            program_spec(old(self).tokens(), old(self).state()) == Some((member_views(res.members@), final(self).state())),
    {
        let ghost tokens = self.tokens@;
        let ghost bound = tokens.len() + self.next_position + 8;
        let ghost goal = members_from(tokens, self.state(), Seq::empty());
        let mut members: Vec<Member> = Vec::new();
        proof {
            assert(member_views(members@) =~= Seq::<MemberView>::empty());
        }
        while self.current().kind != TokenKind::EndOfFile
            invariant
                self.tokens@ == tokens,
                tokens.len() > 0,
                bound + 8 <= usize::MAX,
                tokens.len() + 8 <= bound,
                self.next_position <= bound,
                goal is Some,
                members_from(tokens, self.state(), member_views(members@)) == goal,
            decreases bound - self.next_position,
        {
            let ghost before = self.state();
            let ghost before_members = members@;
            let start = self.current();
            let member = self.parse_member();
            let ghost after = self.state();
            let ghost m = member;
            members.push(member);
            if self.current() == start {
                self.next();
            }
            proof {
                lemma_function_forward(tokens, before);
                assert(member_views(members@) =~= member_views(before_members).push(m@));
            }
        }
        self.expect(TokenKind::EndOfFile);
        Program::new(members)
    }
}

} // verus!
