use envyc::cli::{finished_message, pluralize};
use envyc::context::compilation_context::{CompilationContext, EnviousDiagnosticHandler};
use envyc::context::symbol_interner::SymbolInterner;
use envyc::error::{DiagnosticType, EnviousDiagnostic, LexerDiagnosticKind, ParserDiagnosticKind};
use envyc::parse::parser::Parser;
use envyc::parse::syntax::expression::Type;
use envyc::parse::token_kind::TokenKind;
use envyc::parse::token_stream::TokenStream;
use envyc::source::error::{EnvyError, EnvyErrorAnnotation, EnvyErrorLevel};
use envyc::source::report::{LabelStyle, Severity};
use envyc::source::source::Source;
use envyc::source::source_map::{FilesError, SourceMap};
use envyc::source::span::Span;

const ADD_SOURCE: &str = "// Adds two numbers, but as a function, it is
// quite useless.
//
// a :: Int - First number to add.
// b :: Int - Second number to add.
define add(a: Int, b: Int) =
    a + c
";

#[test]
fn it_works() {
    let mut source_map = SourceMap::new();
    let source_id = source_map.push("a.envy", ADD_SOURCE);

    let error = EnvyError {
        level: EnvyErrorLevel::Error,
        code: 1,
        title: "undefined reference".to_string(),
        annotations: vec![EnvyErrorAnnotation {
            message: Some("`c` has not been defined by this point".to_string()),
            span: Span { source_id, start_pos: 175, end_pos: 176 },
        }],
        footer_notes: vec!["perhaps you meant to use `b`?".to_string()],
    };

    let report = error.into_report();
    assert_eq!(report.severity, Severity::Error);
    assert_eq!(report.code.as_deref(), Some("E0001"));
    assert_eq!(report.message, "undefined reference");
    assert_eq!(report.labels.len(), 1);
    assert_eq!(report.labels[0].style, LabelStyle::Primary);
    assert_eq!(report.labels[0].file_id, source_id);
    assert_eq!((report.labels[0].start, report.labels[0].end), (175, 176));
    assert_eq!(report.labels[0].message, "`c` has not been defined by this point");
    assert_eq!(report.notes, vec!["perhaps you meant to use `b`?".to_string()]);

    assert_eq!(&source_map.source(source_id).unwrap()[175..176], "c");
    assert_eq!(source_map.name(source_id).unwrap(), "a.envy");
    assert_eq!(source_map.line_index(source_id, 175), Ok(6));
    assert_eq!(source_map.line_range(source_id, 6), Ok((167, 177)));
}

#[test]
fn source_map_gives_ids_in_order_and_refuses_unknown_ones() {
    let mut map = SourceMap::new();
    assert_eq!(map.push("a", "x\ny"), 0);
    assert_eq!(map.push("b", ""), 1);
    assert_eq!(map.get(0).unwrap().text, "x\ny");
    assert_eq!(map.get(1).unwrap().name, "b");
    assert!(matches!(map.get(2), Err(FilesError::FileMissing)));
    assert_eq!(map.line_index(0, 0), Ok(0));
    assert_eq!(map.line_index(0, 2), Ok(1));
    assert_eq!(map.line_range(0, 0), Ok((0, 2)));
    assert_eq!(map.line_range(0, 1), Ok((2, 3)));
    assert!(matches!(map.line_range(0, 5), Err(FilesError::LineTooLarge { .. })));
    assert_eq!(map.line_index(7, 0), Err(FilesError::FileMissing));
}

#[test]
fn error_codes_are_padded_to_four_digits() {
    let error = EnvyError {
        level: EnvyErrorLevel::Warning,
        code: 42,
        title: "t".to_string(),
        annotations: vec![
            EnvyErrorAnnotation { message: None, span: Span::new(0, 1, 2) },
            EnvyErrorAnnotation { message: Some("m".to_string()), span: Span::new(0, 3, 4) },
        ],
        footer_notes: vec![],
    };
    let report = error.into_report();
    assert_eq!(report.severity, Severity::Warning);
    assert_eq!(report.code.as_deref(), Some("E0042"));
    assert_eq!(report.labels[0].style, LabelStyle::Primary);
    assert_eq!(report.labels[0].message, "");
    assert_eq!(report.labels[1].style, LabelStyle::Secondary);
    assert_eq!(report.labels[1].message, "m");
    assert!(report.notes.is_empty());
    assert_eq!(EnvyErrorLevel::Info.severity(), Severity::Note);
}

#[test]
fn parser_reads_the_signature_of_a_function() {
    let text = "define test(x: Int, y: Bool) =";
    let mut ctx = CompilationContext::new();
    let source_id = ctx.add_source("test.envy", text);
    let source = Source::new(source_id, "test.envy".to_owned(), text.to_owned());
    let mut parser = Parser::new(&source);
    let program = parser.parse(&mut ctx);
    assert_eq!(program.functions.len(), 1);
    let function = &program.functions[0];
    assert_eq!(function.define_keyword, Span::new(source_id, 0, 6));
    assert_eq!(ctx.get_key(&function.name.node), "test");
    assert_eq!(function.name.span, Span::new(source_id, 7, 11));
    assert_eq!(function.left_parenthesis, Span::new(source_id, 11, 12));
    assert_eq!(function.parameters.len(), 2);
    assert!(function.parameters[0].leading_comma.is_none());
    assert_eq!(ctx.get_key(&function.parameters[0].name.node), "x");
    assert_eq!(function.parameters[0].ty.node, Type::Int);
    assert_eq!(function.parameters[1].leading_comma, Some(Span::new(source_id, 18, 19)));
    assert_eq!(ctx.get_key(&function.parameters[1].name.node), "y");
    assert_eq!(function.parameters[1].ty.node, Type::Boolean);
    assert_eq!(function.right_parenthesis, Span::new(source_id, 27, 28));
    assert_eq!(function.equal_sign, Span::new(source_id, 29, 30));

    let stats = ctx.get_diagnostic_stats();
    assert_eq!((stats.error_count, stats.warning_count), (0, 0));
    assert_eq!(finished_message(stats.error_count, stats.warning_count), "\nfinished with 0 errors and 0 warnings");
}

#[test]
fn parser_reports_what_cannot_start_a_function() {
    let text = "x define f() =";
    let mut ctx = CompilationContext::new();
    let source_id = ctx.add_source("bad.envy", text);
    let source = Source::new(source_id, "bad.envy".to_owned(), text.to_owned());
    let program = Parser::new(&source).parse(&mut ctx);
    assert_eq!(program.functions.len(), 1);
    assert_eq!(ctx.get_diagnostic_stats().error_count, 1);
    let reported = ctx.reported_diagnostics();
    assert_eq!(reported.len(), 1);
    match &reported[0] {
        EnviousDiagnostic::ParserDiagnostic(ParserDiagnosticKind::ExpectedKind { span, expected_kinds, found_kind }) => {
            assert_eq!(*span, Span::new(source_id, 0, 1));
            assert_eq!(expected_kinds, &vec![TokenKind::Define]);
            assert_eq!(*found_kind, TokenKind::Identifer);
        },
        other => panic!("unexpected {:?}", other),
    }
    let report = reported[0].to_report();
    assert_eq!(report.code.as_deref(), Some("E0002"));
    assert_eq!(report.message, "unexpected item");
    assert_eq!(report.notes, vec!["expected the define keyword".to_string(), "got an identifier".to_string()]);
    assert_eq!(finished_message(1, 1), "\nfinished with 1 error and 1 warning");
}

#[test]
fn parser_reports_a_parameter_without_a_type() {
    let text = "define f(x) =";
    let mut ctx = CompilationContext::new();
    let source_id = ctx.add_source("f.envy", text);
    let source = Source::new(source_id, "f.envy".to_owned(), text.to_owned());
    let program = Parser::new(&source).parse(&mut ctx);
    assert_eq!(program.functions.len(), 0);
    assert!(ctx.get_diagnostic_stats().error_count >= 1);
    match &ctx.reported_diagnostics()[0] {
        EnviousDiagnostic::ParserDiagnostic(ParserDiagnosticKind::ExpectedKind { expected_kinds, found_kind, .. }) => {
            assert_eq!(expected_kinds, &vec![TokenKind::Colon]);
            assert_eq!(*found_kind, TokenKind::RightParenthesis);
        },
        other => panic!("unexpected {:?}", other),
    }
}

#[test]
fn token_stream_reports_unknown_characters_and_skips_whitespace() {
    let text = "Int $ foo";
    let mut ctx = CompilationContext::new();
    let source_id = ctx.add_source("s.envy", text);
    let source = Source::new(source_id, "s.envy".to_owned(), text.to_owned());
    let mut stream = TokenStream::new(&source);
    let mut kinds = Vec::new();
    while let Some(token) = stream.next_token(&mut ctx) {
        kinds.push((token.span.start_pos, token.span.end_pos, token.node));
    }
    assert_eq!(kinds, vec![(0, 3, TokenKind::IntType), (6, 9, TokenKind::Identifer)]);
    assert_eq!(ctx.get_diagnostic_stats().error_count, 1);
    match &ctx.reported_diagnostics()[0] {
        EnviousDiagnostic::LexerDiagnostic(LexerDiagnosticKind::UnknownCharacter(span)) => {
            assert_eq!(*span, Span::new(source_id, 4, 5));
        },
        other => panic!("unexpected {:?}", other),
    }
    let report = ctx.reported_diagnostics()[0].to_report();
    assert_eq!(report.code.as_deref(), Some("E0001"));
    assert_eq!(report.message, "unrecognized character");
    assert_eq!((report.labels[0].start, report.labels[0].end), (4, 5));
}

#[test]
fn diagnostic_handler_counts_errors() {
    let mut handler = EnviousDiagnosticHandler::new();
    handler.handle_diagnostic(EnviousDiagnostic::LexerDiagnostic(LexerDiagnosticKind::UnknownCharacter(Span::new(0, 0, 1))));
    handler.handle_diagnostic(EnviousDiagnostic::ParserDiagnostic(ParserDiagnosticKind::ExpectedKind {
        span: Span::new(0, 1, 2),
        expected_kinds: vec![TokenKind::Comma, TokenKind::RightParenthesis, TokenKind::Colon],
        found_kind: TokenKind::Int,
    }));
    let stats = handler.get_stats();
    assert_eq!((stats.error_count, stats.warning_count), (2, 0));
    assert_eq!(handler.reported_diagnostics().len(), 2);
    assert_eq!(handler.reported_diagnostics()[1].get_diagnostic_kind(), DiagnosticType::Error);
    let report = handler.reported_diagnostics()[1].to_report();
    assert_eq!(report.notes[0], "expected a comma, a right parenthesisor a colon");
    assert_eq!(report.notes[1], "got an integer");
}

#[test]
fn symbol_interner_gives_one_id_per_text() {
    let mut interner = SymbolInterner::new();
    let a = interner.get_symbol("alpha");
    let b = interner.get_symbol("beta");
    assert_ne!(a, b);
    assert_eq!(interner.get_symbol("alpha"), a);
    assert_eq!(interner.get_key(&a), "alpha");
    assert_eq!(interner.get_key(&b), "beta");
}

#[test]
fn compilation_context_keeps_sources_and_symbols() {
    let mut ctx = CompilationContext::new();
    let first = ctx.add_source("one.envy", "1");
    let second = ctx.add_source("two.envy", "2");
    assert_eq!((first, second), (0, 1));
    assert_eq!(ctx.get_source(second).unwrap().text, "2");
    assert!(ctx.get_source(2).is_none());
    assert_eq!(ctx.source_map().name(first), Ok("one.envy"));
    assert_eq!(ctx.source_map().source(second), Ok("2"));
    let s = ctx.get_symbol("name");
    assert_eq!(ctx.get_symbol("name"), s);
    assert_eq!(ctx.get_key(&s), "name");
}

#[test]
fn pluralize_picks_the_form_by_count() {
    assert_eq!(pluralize("error", "errors", 1), "error");
    assert_eq!(pluralize("error", "errors", 0), "errors");
    assert_eq!(pluralize("error", "errors", 2), "errors");
}

#[test]
fn token_stream_ends_with_the_end_marker_and_stays_ended() {
    let text = "( )";
    let mut ctx = CompilationContext::new();
    let source_id = ctx.add_source("s.envy", text);
    let source = Source::new(source_id, "s.envy".to_owned(), text.to_owned());
    let mut stream = TokenStream::new(&source);
    let mut kinds = Vec::new();
    while let Some(token) = stream.next_token(&mut ctx) {
        kinds.push((token.span.start_pos, token.span.end_pos, token.node));
    }
    assert_eq!(
        kinds,
        vec![(0, 1, TokenKind::LeftParenthesis), (2, 3, TokenKind::RightParenthesis), (3, 3, TokenKind::EndOfFile)]
    );
    assert!(stream.next_token(&mut ctx).is_none());
    assert!(stream.next_token(&mut ctx).is_none());
    assert_eq!(ctx.get_diagnostic_stats().error_count, 0);
}
