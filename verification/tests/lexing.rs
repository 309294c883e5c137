use envyc::lexical_analysis::error::Error;
use envyc::lexical_analysis::lexer::Lexer;
use envyc::lexical_analysis::span::Span;
use envyc::lexical_analysis::token::TokenKind;
use envyc::source::source::Source;
use envyc::syntax::lexical_analysis::token_kind::TokenKind as SyntaxKind;
use envyc::syntax::lexical_analysis::LexicalAnalyzer;

fn lex_all(input: &str) -> Vec<Result<(Span, TokenKind), Error>> {
    let mut lexer = Lexer::new(input.as_bytes());
    let mut out = Vec::new();
    while let Some(item) = lexer.next_token() {
        out.push(item);
    }
    out
}

#[test]
fn byte_lexer_reads_a_let_binding() {
    let tokens = lex_all("let x := 12");
    assert_eq!(tokens.len(), 7);
    let (span, kind) = tokens[0].as_ref().unwrap();
    assert_eq!(*span, Span::new(1, 1, 1, 3));
    assert!(matches!(kind, TokenKind::Let));
    assert!(matches!(tokens[1], Ok((_, TokenKind::Whitespace))));
    let (span, kind) = tokens[2].as_ref().unwrap();
    assert_eq!(*span, Span::new(1, 5, 1, 5));
    assert!(matches!(kind, TokenKind::Identifier(name) if name == "x"));
    let (span, kind) = tokens[4].as_ref().unwrap();
    assert_eq!(*span, Span::new(1, 7, 1, 8));
    assert!(matches!(kind, TokenKind::ColonEqualSign));
    let (span, kind) = tokens[6].as_ref().unwrap();
    assert_eq!(*span, Span::new(1, 10, 1, 11));
    assert!(matches!(kind, TokenKind::IntegerLiteral(12)));
}

#[test]
fn byte_lexer_reads_keywords_and_types() {
    let tokens = lex_all("define Int Float Boolean String Void Any true false not or and if then else while");
    let kinds: Vec<&TokenKind> = tokens
        .iter()
        .map(|t| &t.as_ref().unwrap().1)
        .filter(|k| !matches!(k, TokenKind::Whitespace))
        .collect();
    assert_eq!(kinds.len(), 16);
    assert!(matches!(kinds[0], TokenKind::Define));
    assert!(matches!(kinds[1], TokenKind::Int));
    assert!(matches!(kinds[2], TokenKind::Float));
    assert!(matches!(kinds[3], TokenKind::Boolean));
    assert!(matches!(kinds[4], TokenKind::String));
    assert!(matches!(kinds[5], TokenKind::Void));
    assert!(matches!(kinds[6], TokenKind::Any));
    assert!(matches!(kinds[7], TokenKind::BooleanLiteral(true)));
    assert!(matches!(kinds[8], TokenKind::BooleanLiteral(false)));
    assert!(matches!(kinds[9], TokenKind::Not));
    assert!(matches!(kinds[10], TokenKind::Or));
    assert!(matches!(kinds[11], TokenKind::And));
    assert!(matches!(kinds[12], TokenKind::If));
    assert!(matches!(kinds[13], TokenKind::Then));
    assert!(matches!(kinds[14], TokenKind::Else));
    assert!(matches!(kinds[15], TokenKind::While));
}

#[test]
fn byte_lexer_reads_operators() {
    let tokens = lex_all("+-*/%=()!=<=>=<>,::::={}");
    let kinds: Vec<&TokenKind> = tokens.iter().map(|t| &t.as_ref().unwrap().1).collect();
    assert_eq!(kinds.len(), 19);
    assert!(matches!(kinds[0], TokenKind::Plus));
    assert!(matches!(kinds[1], TokenKind::Minus));
    assert!(matches!(kinds[2], TokenKind::Star));
    assert!(matches!(kinds[3], TokenKind::Slash));
    assert!(matches!(kinds[4], TokenKind::PercentSign));
    assert!(matches!(kinds[5], TokenKind::EqualSign));
    assert!(matches!(kinds[6], TokenKind::LeftParenthesis));
    assert!(matches!(kinds[7], TokenKind::RightParenthesis));
    assert!(matches!(kinds[8], TokenKind::ExclamationEqualSign));
    assert!(matches!(kinds[9], TokenKind::LessThanEqualSign));
    assert!(matches!(kinds[10], TokenKind::GreaterThanEqualSign));
    assert!(matches!(kinds[11], TokenKind::LeftAngleBracket));
    assert!(matches!(kinds[12], TokenKind::RightAngleBracket));
    assert!(matches!(kinds[13], TokenKind::Comma));
    assert!(matches!(kinds[14], TokenKind::ColonColon));
    assert!(matches!(kinds[15], TokenKind::ColonColon));
    assert!(matches!(kinds[16], TokenKind::EqualSign));
    assert!(matches!(kinds[17], TokenKind::LeftCurlyBrace));
    assert!(matches!(kinds[18], TokenKind::RightCurlyBrace));
}

#[test]
fn byte_lexer_reads_numbers() {
    // A leading minus negates the first digit, and later digits are added
    // to ten times what was read: "-42" reads as -4 * 10 + 2.
    let tokens = lex_all("-42 3.25 7");
    let (span, kind) = tokens[0].as_ref().unwrap();
    assert_eq!(*span, Span::new(1, 1, 1, 3));
    assert!(matches!(kind, TokenKind::IntegerLiteral(-38)));
    let (span, kind) = tokens[2].as_ref().unwrap();
    assert_eq!(*span, Span::new(1, 5, 1, 8));
    assert!(matches!(kind, TokenKind::FloatLiteral { whole: 3, decimals: 25 }));
    assert!(matches!(tokens[4], Ok((_, TokenKind::IntegerLiteral(7)))));
}

#[test]
fn byte_lexer_reads_strings() {
    let tokens = lex_all("'ab' \"c d\"");
    let (span, kind) = tokens[0].as_ref().unwrap();
    assert_eq!(*span, Span::new(1, 1, 1, 4));
    assert!(matches!(kind, TokenKind::StringLiteral(s) if s == "ab"));
    assert!(matches!(&tokens[2], Ok((_, TokenKind::StringLiteral(s))) if s == "c d"));
}

#[test]
fn byte_lexer_counts_lines() {
    let tokens = lex_all("a\nb");
    assert_eq!(tokens.len(), 3);
    let (span, _) = tokens[1].as_ref().unwrap();
    assert_eq!(*span, Span::new(1, 2, 1, 2));
    let (span, kind) = tokens[2].as_ref().unwrap();
    assert_eq!(*span, Span::new(2, 1, 2, 1));
    assert!(matches!(kind, TokenKind::Identifier(name) if name == "b"));
}

#[test]
fn byte_lexer_reports_an_unterminated_string() {
    let tokens = lex_all("'abc");
    assert_eq!(tokens.len(), 1);
    assert_eq!(tokens[0].as_ref().unwrap_err(), &Error::UnterminatedString(Span::new(1, 1, 1, 4)));
}

#[test]
fn byte_lexer_reports_an_integer_overflow() {
    let tokens = lex_all("99999999999999999999");
    assert!(matches!(tokens[0], Err(Error::IntegerOverflow(_))));
}

#[test]
fn byte_lexer_reports_an_unknown_character() {
    let tokens = lex_all("$");
    assert_eq!(tokens.len(), 1);
    assert!(matches!(tokens[0], Err(Error::UnrecognizedCharacter(_))));
}

#[test]
fn byte_lexer_stops_at_the_end() {
    assert_eq!(lex_all("").len(), 0);
}

#[test]
fn token_names_describe_the_kinds() {
    assert_eq!(TokenKind::Let.get_name(), "The Let Keyword");
    assert_eq!(TokenKind::Identifier("x".to_owned()).get_name(), "An Identifier");
    assert_eq!(TokenKind::LeftParenthesis.get_name(), "A Left Parenthesis");
}

fn syntax_tokens(text: &str) -> Vec<(usize, usize, SyntaxKind)> {
    let source = Source::new(0, "test.envy".to_owned(), text.to_owned());
    let mut lexer = LexicalAnalyzer::new(&source);
    let mut out = Vec::new();
    while let Some(token) = lexer.next_token() {
        out.push((token.span.start_pos, token.span.end_pos, token.node));
    }
    out
}

#[test]
fn source_lexer_reads_words_and_spaces() {
    let tokens = syntax_tokens("let x");
    assert_eq!(
        tokens,
        vec![(0, 3, SyntaxKind::Let), (3, 4, SyntaxKind::Whitespace), (4, 5, SyntaxKind::Identifer)]
    );
}

#[test]
fn source_lexer_reads_the_end_of_file_after_a_single_character() {
    let tokens = syntax_tokens("(");
    assert_eq!(tokens, vec![(0, 1, SyntaxKind::LeftParenthesis), (1, 2, SyntaxKind::EndOfFile)]);
}

#[test]
fn source_lexer_reads_two_character_operators() {
    let tokens = syntax_tokens("<= :: : 12");
    assert_eq!(
        tokens,
        vec![
            (0, 2, SyntaxKind::LessThanEqual),
            (2, 3, SyntaxKind::Whitespace),
            (3, 5, SyntaxKind::ColonColon),
            (5, 6, SyntaxKind::Whitespace),
            (6, 7, SyntaxKind::Colon),
            (7, 8, SyntaxKind::Whitespace),
            (8, 10, SyntaxKind::Int),
        ]
    );
}

#[test]
fn source_lexer_marks_an_unknown_character() {
    let tokens = syntax_tokens("$");
    assert_eq!(tokens, vec![(0, 1, SyntaxKind::Error), (1, 2, SyntaxKind::EndOfFile)]);
}
