use envyc::context::symbol_interner::SymbolInterner;
use envyc::lexer::lexer::LexicalAnalyzer;
use envyc::lexer::token::{Token, TokenKind};
use envyc::source::source::Source;
use envyc::source::snippet::{Snippet, SourcePos};
use envyc::syntax::ast::{Member, Parameter, SnippetedSymbol};
use envyc::syntax::parser::{Complaint, Parser};

fn token(start: usize, end: usize, kind: TokenKind) -> Token {
    Token::new(Snippet::new(0, SourcePos(start), SourcePos(end)), kind)
}

fn snippet(start: usize, end: usize) -> Snippet {
    Snippet::new(0, SourcePos(start), SourcePos(end))
}

#[test]
fn signature_parser_reads_a_function_with_parameters() {
    // define add(a, b) =
    let tokens = vec![
        token(0, 5, TokenKind::Define),
        token(7, 9, TokenKind::Identifer(1)),
        token(10, 10, TokenKind::LeftParenthesis),
        token(11, 11, TokenKind::Identifer(2)),
        token(12, 12, TokenKind::Comma),
        token(14, 14, TokenKind::Identifer(3)),
        token(15, 15, TokenKind::RightParenthesis),
        token(17, 17, TokenKind::Equal),
        token(18, 18, TokenKind::EndOfFile),
    ];
    let mut parser = Parser::new(tokens);
    let program = parser.parse();
    assert_eq!(program.members.len(), 1);
    match &program.members[0] {
        Member::Function(f) => {
            assert_eq!(f.define_keyword, snippet(0, 5));
            assert_eq!(f.identifier, SnippetedSymbol::new(snippet(7, 9), 1));
            assert_eq!(f.left_parenthesis, snippet(10, 10));
            assert_eq!(
                f.parameters,
                vec![
                    Parameter::new(SnippetedSymbol::new(snippet(11, 11), 2)),
                    Parameter::new(SnippetedSymbol::new(snippet(14, 14), 3)),
                ]
            );
            assert_eq!(f.right_parenthesis, snippet(15, 15));
            assert_eq!(f.equal_sign, snippet(17, 17));
        },
        Member::GlobalStatement => panic!("expected a function"),
    }
    assert!(parser.diagnostics().is_empty());
}

#[test]
fn signature_parser_complains_about_a_missing_comma() {
    // define f(a b) =
    let tokens = vec![
        token(0, 5, TokenKind::Define),
        token(7, 7, TokenKind::Identifer(1)),
        token(8, 8, TokenKind::LeftParenthesis),
        token(9, 9, TokenKind::Identifer(2)),
        token(11, 11, TokenKind::Identifer(3)),
        token(12, 12, TokenKind::RightParenthesis),
        token(14, 14, TokenKind::Equal),
        token(15, 15, TokenKind::EndOfFile),
    ];
    let mut parser = Parser::new(tokens);
    let program = parser.parse();
    match &program.members[0] {
        Member::Function(f) => assert_eq!(f.parameters.len(), 2),
        Member::GlobalStatement => panic!("expected a function"),
    }
    let diagnostics = parser.diagnostics();
    assert_eq!(diagnostics.len(), 1);
    let text = format!("{:?}", diagnostics[0]);
    assert!(text.contains("unexpected {} found"));
    assert!(text.contains("expected a(n) comma but found a(n) identifier instead"));
}

#[test]
fn signature_parser_complains_about_a_missing_equal_sign() {
    // define f()
    let tokens = vec![
        token(0, 5, TokenKind::Define),
        token(7, 7, TokenKind::Identifer(1)),
        token(8, 8, TokenKind::LeftParenthesis),
        token(9, 9, TokenKind::RightParenthesis),
        token(10, 10, TokenKind::EndOfFile),
    ];
    let mut parser = Parser::new(tokens);
    let program = parser.parse();
    assert_eq!(program.members.len(), 1);
    let diagnostics = parser.diagnostics();
    assert_eq!(diagnostics.len(), 1);
    let text = format!("{:?}", diagnostics[0]);
    assert!(text.contains("expected a(n) equal sign but found a(n) end of file instead"));
    assert!(!text.contains("encoding"));
}

#[test]
fn signature_parser_reads_two_functions() {
    // define f() = define g() =
    let tokens = vec![
        token(0, 5, TokenKind::Define),
        token(7, 7, TokenKind::Identifer(1)),
        token(8, 8, TokenKind::LeftParenthesis),
        token(9, 9, TokenKind::RightParenthesis),
        token(11, 11, TokenKind::Equal),
        token(13, 18, TokenKind::Define),
        token(20, 20, TokenKind::Identifer(2)),
        token(21, 21, TokenKind::LeftParenthesis),
        token(22, 22, TokenKind::RightParenthesis),
        token(24, 24, TokenKind::Equal),
        token(25, 25, TokenKind::EndOfFile),
    ];
    let mut parser = Parser::new(tokens);
    let program = parser.parse();
    assert_eq!(program.members.len(), 2);
    match &program.members[1] {
        Member::Function(f) => assert_eq!(f.identifier.symbol, 2),
        Member::GlobalStatement => panic!("expected a function"),
    }
    assert!(parser.diagnostics().is_empty());
}

#[test]
fn complaints_about_the_end_of_file_hint_at_the_encoding() {
    let complaint = Complaint { snippet: snippet(3, 4), expected: TokenKind::EndOfFile, found: TokenKind::Comma };
    let text = format!("{:?}", complaint.to_diagnostic());
    assert!(text.contains("expected a(n) end of file but found a(n) comma instead"));
    assert!(text.contains("there might be an issue with the source encoding"));
}

#[test]
fn snippet_token_kinds_name_themselves() {
    assert_eq!(TokenKind::Int(4).description(), "int");
    assert_eq!(TokenKind::RightAngleBracket.description(), "right curly bracket");
    assert_eq!(TokenKind::ColonColon.description(), "double colon sign");
}

fn lex(text: &str) -> (Vec<(usize, usize, TokenKind)>, Vec<envyc::diagnostic::error::Diagnostic>, SymbolInterner) {
    let source = Source::new(0, "s.envy".to_owned(), text.to_owned());
    let mut lexer = LexicalAnalyzer::new(&source);
    let mut symbols = SymbolInterner::new();
    let mut diagnostics = Vec::new();
    let mut tokens = Vec::new();
    while let Some(token) = lexer.next_token(&mut symbols, &mut diagnostics) {
        tokens.push((token.snippet.start.0, token.snippet.end.0, token.kind));
    }
    (tokens, diagnostics, symbols)
}

#[test]
fn snippet_lexer_reads_a_binding() {
    let (tokens, diagnostics, mut symbols) = lex("let x = 12");
    assert_eq!(
        tokens,
        vec![
            (0, 2, TokenKind::Let),
            (4, 4, TokenKind::Identifer(0)),
            (6, 6, TokenKind::Equal),
            (8, 9, TokenKind::Int(12)),
            (10, 10, TokenKind::EndOfFile),
        ]
    );
    assert!(diagnostics.is_empty());
    assert_eq!(symbols.get_key(&0), "x");
    assert_eq!(symbols.get_symbol("x"), 0);
}

#[test]
fn snippet_lexer_reads_signs_and_operators() {
    let (tokens, _, _) = lex("-7 +3 - 4 <= < : :: y y;");
    assert_eq!(
        tokens,
        vec![
            (0, 1, TokenKind::Int(-7)),
            (3, 4, TokenKind::Int(3)),
            (6, 6, TokenKind::Minus),
            (8, 8, TokenKind::Int(4)),
            (10, 11, TokenKind::LessThanEqual),
            (13, 13, TokenKind::LeftAngleBracket),
            (15, 15, TokenKind::Colon),
            (17, 18, TokenKind::ColonColon),
            (20, 20, TokenKind::Identifer(0)),
            (22, 22, TokenKind::Identifer(0)),
            (23, 23, TokenKind::SemiColon),
            (24, 24, TokenKind::EndOfFile),
        ]
    );
    let (tokens, _, _) = lex("-9223372036854775808");
    assert_eq!(tokens[0], (0, 19, TokenKind::Int(i64::MIN)));
}

#[test]
fn snippet_lexer_reports_an_overflow_and_an_unknown_character() {
    let (tokens, diagnostics, _) = lex("99999999999999999999");
    assert_eq!(tokens[0], (0, 19, TokenKind::Int(0)));
    assert_eq!(diagnostics.len(), 1);
    let text = format!("{:?}", diagnostics[0]);
    assert!(text.contains("numerical overflow"));
    assert!(text.contains("all integers must be in the range (`-9223372036854775808`, `9223372036854775807`)"));

    let (tokens, diagnostics, _) = lex("a $ b");
    assert_eq!(tokens, vec![(0, 0, TokenKind::Identifer(0))]);
    assert_eq!(diagnostics.len(), 1);
    let text = format!("{:?}", diagnostics[0]);
    assert!(text.contains("unrecognized character"));
}

#[test]
fn snippet_lexer_feeds_the_signature_parser() {
    let source = Source::new(0, "f.envy".to_owned(), "define f(a, b) =".to_owned());
    let mut lexer = LexicalAnalyzer::new(&source);
    let mut symbols = SymbolInterner::new();
    let mut diagnostics = Vec::new();
    let mut tokens = Vec::new();
    while let Some(token) = lexer.next_token(&mut symbols, &mut diagnostics) {
        tokens.push(token);
    }
    let mut parser = Parser::new(tokens);
    let program = parser.parse();
    match &program.members[0] {
        Member::Function(f) => {
            assert_eq!(symbols.get_key(&f.identifier.symbol), "f");
            assert_eq!(f.parameters.len(), 2);
        },
        Member::GlobalStatement => panic!("expected a function"),
    }
    assert!(parser.diagnostics().is_empty());
}

#[test]
fn signature_parser_declines_what_it_cannot_read() {
    // a global statement: x
    let tokens = vec![token(0, 0, TokenKind::Identifer(1)), token(1, 1, TokenKind::EndOfFile)];
    let mut parser = Parser::new(tokens);
    assert!(!parser.can_parse());
    assert!(parser.try_parse().is_none());
    assert!(parser.diagnostics().is_empty());

    // a parameter list that never ends: define f(a b
    let tokens = vec![
        token(0, 5, TokenKind::Define),
        token(7, 7, TokenKind::Identifer(1)),
        token(8, 8, TokenKind::LeftParenthesis),
        token(9, 9, TokenKind::Identifer(2)),
        token(11, 11, TokenKind::Identifer(3)),
        token(12, 12, TokenKind::EndOfFile),
    ];
    let mut parser = Parser::new(tokens);
    assert!(!parser.can_parse());
    assert!(parser.try_parse().is_none());
    assert!(parser.diagnostics().is_empty());
}

#[test]
fn signature_parser_tries_and_reads() {
    // define f() =
    let tokens = vec![
        token(0, 5, TokenKind::Define),
        token(7, 7, TokenKind::Identifer(1)),
        token(8, 8, TokenKind::LeftParenthesis),
        token(9, 9, TokenKind::RightParenthesis),
        token(11, 11, TokenKind::Equal),
        token(12, 12, TokenKind::EndOfFile),
    ];
    let mut parser = Parser::new(tokens);
    assert!(parser.can_parse());
    match parser.try_parse() {
        Some(program) => assert_eq!(program.members.len(), 1),
        None => panic!("the signature reads"),
    }
    assert!(parser.diagnostics().is_empty());
}
