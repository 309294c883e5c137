use envyc::ast::expression::Expression;
use envyc::ast::expression_kind::{BinaryEqualityOperation, BinaryOperation, ExpressionKind};
use envyc::compiler::{can_compile, Compiler};
use envyc::errors::error::Error;
use envyc::errors::error_kind::ErrorKind;
use envyc::lexical_analysis::token::TokenKind;
use envyc::parser::identifiers::IdentifierTable;
use envyc::parser::Parser;
use envyc::semantic_analyzer::function::{Function, FunctionTable, StandardLibrary};
use envyc::semantic_analyzer::type_checker::TypeChecker;
use envyc::semantic_analyzer::types::Types;

fn print_library() -> StandardLibrary {
    StandardLibrary::new(vec![Function::new("print", 1, vec![Types::Any], Types::Void)])
}

fn parse(tokens: Vec<(usize, TokenKind)>) -> Result<Vec<Expression>, Error> {
    let library = print_library();
    let mut checker = TypeChecker::new();
    Parser::new(tokens).parse(&library, &mut checker)
}

fn expect_error(result: Result<Vec<Expression>, Error>, input: &str) -> String {
    match result {
        Ok(_) => panic!("expected an error"),
        Err(error) => error.prettify(input),
    }
}

fn ident(name: &str) -> TokenKind {
    TokenKind::Identifier(name.to_owned())
}

#[test]
fn parser_reads_a_let_binding_and_skips_whitespace() {
    let tokens = vec![
        (1, TokenKind::Let),
        (4, TokenKind::Whitespace),
        (5, ident("x")),
        (6, TokenKind::Whitespace),
        (7, TokenKind::ColonEqualSign),
        (9, TokenKind::Whitespace),
        (10, TokenKind::IntegerLiteral(12)),
    ];
    let ast = match parse(tokens) {
        Ok(ast) => ast,
        Err(_) => panic!("the binding parses"),
    };
    assert_eq!(ast.len(), 1);
    assert_eq!(ast[0].pos, 1);
    match &ast[0].kind {
        ExpressionKind::LetExpression(name, t, Some(value)) => {
            assert_eq!(name, "x");
            assert_eq!(*t, Types::Any);
            assert_eq!(value.pos, 10);
            assert!(matches!(value.kind, ExpressionKind::Int(12)));
        },
        other => panic!("unexpected {:?}", other),
    }
}

#[test]
fn parser_reads_arithmetic_with_precedence() {
    let tokens = vec![
        (1, TokenKind::IntegerLiteral(1)),
        (3, TokenKind::Plus),
        (5, TokenKind::IntegerLiteral(2)),
        (7, TokenKind::Star),
        (9, TokenKind::IntegerLiteral(3)),
    ];
    let ast = match parse(tokens) {
        Ok(ast) => ast,
        Err(_) => panic!("the sum parses"),
    };
    assert_eq!(ast.len(), 1);
    match &ast[0].kind {
        ExpressionKind::InfixBinaryExpression(BinaryOperation::Plus, left, right) => {
            assert!(matches!(left.kind, ExpressionKind::Int(1)));
            assert!(matches!(right.kind, ExpressionKind::InfixBinaryExpression(BinaryOperation::Multiply, _, _)));
        },
        other => panic!("unexpected {:?}", other),
    }
}

#[test]
fn parser_reports_a_missing_identifier() {
    let text = expect_error(parse(vec![(1, TokenKind::Let)]), "let");
    assert_eq!(text, "  |\n1 | let\n  | ^-- Expected An Identifier After Here.\n");
}

#[test]
fn parser_reports_a_rebinding_of_another_type() {
    let input = "let x := 1\nlet x := true";
    let tokens = vec![
        (1, TokenKind::Let),
        (5, ident("x")),
        (7, TokenKind::ColonEqualSign),
        (10, TokenKind::IntegerLiteral(1)),
        (11, TokenKind::Whitespace),
        (12, TokenKind::Let),
        (16, ident("x")),
        (18, TokenKind::ColonEqualSign),
        (21, TokenKind::BooleanLiteral(true)),
    ];
    let text = expect_error(parse(tokens), input);
    let expected = format!(
        "  |\n2 | let x := true\n  | {}^-- Expected An Int, But Found A Boolean.\n",
        " ".repeat(9)
    );
    assert_eq!(text, expected);
}

#[test]
fn parser_reports_a_token_that_starts_no_expression() {
    let text = expect_error(parse(vec![(1, TokenKind::RightParenthesis)]), ")");
    assert_eq!(
        text,
        "  |\n1 | )\n  | ^-- Expected An Int, A Float, Or A Left Parenthesis, But Found A Right Parenthesis.\n"
    );
}

#[test]
fn parser_records_a_definition_with_the_type_checker() {
    let library = print_library();
    let mut checker = TypeChecker::new();
    let tokens = vec![
        (1, TokenKind::Define),
        (8, ident("three")),
        (13, TokenKind::LeftParenthesis),
        (14, TokenKind::RightParenthesis),
        (16, TokenKind::EqualSign),
        (18, TokenKind::IntegerLiteral(3)),
    ];
    let ast = match Parser::new(tokens).parse(&library, &mut checker) {
        Ok(ast) => ast,
        Err(_) => panic!("the definition parses"),
    };
    assert_eq!(ast.len(), 1);
    match &ast[0].kind {
        ExpressionKind::DefineExpression(name, params, body, t) => {
            assert_eq!(name, "three");
            assert!(params.is_empty());
            assert!(matches!(body.kind, ExpressionKind::Int(3)));
            assert_eq!(*t, Types::Int);
        },
        other => panic!("unexpected {:?}", other),
    }
    let f = checker.user_defined_functions.get("three").unwrap();
    assert_eq!(f.number_of_args, 0);
    assert_eq!(f.return_type, Types::Int);
}

#[test]
fn parser_reads_a_call_of_a_library_function() {
    let tokens = vec![
        (1, ident("print")),
        (6, TokenKind::LeftParenthesis),
        (7, TokenKind::StringLiteral("hi".to_owned())),
        (11, TokenKind::RightParenthesis),
    ];
    let ast = match parse(tokens) {
        Ok(ast) => ast,
        Err(_) => panic!("the call parses"),
    };
    match &ast[0].kind {
        ExpressionKind::FunctionCallExpression(name, args) => {
            assert_eq!(name, "print");
            assert_eq!(args.len(), 1);
        },
        other => panic!("unexpected {:?}", other),
    }
}

#[test]
fn parser_starts_over_with_new_tokens_and_keeps_bindings() {
    let library = print_library();
    let mut checker = TypeChecker::new();
    let mut parser = Parser::new(vec![(1, TokenKind::Let), (5, ident("x")), (7, TokenKind::ColonEqualSign), (10, TokenKind::IntegerLiteral(1))]);
    assert!(parser.parse(&library, &mut checker).is_ok());
    parser.with_tokens(vec![(1, ident("x"))]);
    let ast = match parser.parse(&library, &mut checker) {
        Ok(ast) => ast,
        Err(_) => panic!("the name parses"),
    };
    assert!(matches!(&ast[0].kind, ExpressionKind::Identifier(name, Some(Types::Int)) if name == "x"));
}

#[test]
fn type_checker_rejects_adding_a_boolean() {
    let library = print_library();
    let checker = TypeChecker::new();
    let sum = Expression::new(
        ExpressionKind::InfixBinaryExpression(
            BinaryOperation::Plus,
            Box::new(Expression::new(ExpressionKind::Int(1), 1)),
            Box::new(Expression::new(ExpressionKind::Boolean(true), 5)),
        ),
        3,
    );
    match checker.check_types(&sum, &library) {
        Ok(_) => panic!("expected an error"),
        Err(e) => assert_eq!(
            e.prettify("1 + true"),
            "  |\n1 | 1 + true\n  |   ^-- The Operation 'Plus' Can Not Be Applied To An Int And A Boolean.\n"
        ),
    }
}

#[test]
fn type_checker_gives_string_concatenation_a_string() {
    let library = print_library();
    let checker = TypeChecker::new();
    let sum = Expression::new(
        ExpressionKind::InfixBinaryExpression(
            BinaryOperation::Plus,
            Box::new(Expression::new(ExpressionKind::String("a".to_owned()), 1)),
            Box::new(Expression::new(ExpressionKind::Int(2), 7)),
        ),
        5,
    );
    assert!(matches!(checker.check_types(&sum, &library), Ok(Some(Types::String))));
}

#[test]
fn type_checker_reports_an_unknown_function_and_a_wrong_arity() {
    let library = print_library();
    let mut checker = TypeChecker::new();
    let unknown = vec![Expression::new(ExpressionKind::FunctionCallExpression("nope".to_owned(), vec![]), 1)];
    match checker.perform_type_checking(&unknown, &library) {
        Ok(()) => panic!("expected an error"),
        Err(e) => assert_eq!(e.prettify("nope()"), "  |\n1 | nope()\n  | ^-- Unknown Function Called Here.\n"),
    }
    let wrong = vec![Expression::new(ExpressionKind::FunctionCallExpression("print".to_owned(), vec![]), 1)];
    match checker.perform_type_checking(&wrong, &library) {
        Ok(()) => panic!("expected an error"),
        Err(e) => assert_eq!(
            e.prettify("print()"),
            "  |\n1 | print()\n  | ^-- The Wrong Number Of Parameters Were Supplied To This Function.\n"
        ),
    }
}

#[test]
fn function_table_replaces_a_definition_of_the_same_name() {
    let mut table = FunctionTable::new();
    table.insert(Function::new("f", 0, vec![], Types::Int));
    table.insert(Function::new("g", 1, vec![Types::Int], Types::Boolean));
    table.insert(Function::new("f", 1, vec![Types::String], Types::String));
    let f = table.get("f").unwrap();
    assert_eq!(f.number_of_args, 1);
    assert_eq!(f.return_type, Types::String);
    assert_eq!(table.get("g").unwrap().return_type, Types::Boolean);
    assert!(table.get("h").is_none());
}

#[test]
fn standard_library_reports_an_unknown_function() {
    let library = print_library();
    assert_eq!(library.get_function(1, "print").unwrap().number_of_args, 1);
    match library.get_function(4, "nothing") {
        Ok(_) => panic!("expected an error"),
        Err(e) => assert_eq!(
            e.prettify("abcdef"),
            "  |\n1 | abcdef\n  |    ^-- Unknown Function Called Here.\n"
        ),
    }
}

#[test]
fn identifier_table_inserts_and_removes() {
    let mut table = IdentifierTable::new();
    assert_eq!(table.insert("x".to_owned(), Types::Int), None);
    assert_eq!(table.insert("x".to_owned(), Types::String), Some(Types::Int));
    assert_eq!(table.get("x"), Some(Types::String));
    assert!(table.contains_key("x"));
    table.remove("x");
    assert!(!table.contains_key("x"));
}

#[test]
fn compiler_writes_a_binding() {
    let ast = match parse(vec![(1, TokenKind::Let), (5, ident("x")), (7, TokenKind::ColonEqualSign), (10, TokenKind::IntegerLiteral(12))]) {
        Ok(ast) => ast,
        Err(_) => panic!("the binding parses"),
    };
    assert!(can_compile(&ast));
    assert_eq!(Compiler::new().compile(&ast).unwrap(), "@main\npush 12\nset x pop\nend");
}

#[test]
fn compiler_pushes_the_right_operand_first() {
    let ast = match parse(vec![(1, TokenKind::IntegerLiteral(1)), (3, TokenKind::Plus), (5, TokenKind::IntegerLiteral(2))]) {
        Ok(ast) => ast,
        Err(_) => panic!("the sum parses"),
    };
    assert_eq!(Compiler::new().compile(&ast).unwrap(), "@main\npush 2\npush 1\npush add\nend");
}

#[test]
fn compiler_gives_a_block_a_label() {
    let ast = match parse(vec![
        (1, TokenKind::LeftCurlyBrace),
        (3, TokenKind::StringLiteral("a".to_owned())),
        (7, TokenKind::RightCurlyBrace),
        (9, TokenKind::LeftCurlyBrace),
        (10, TokenKind::BooleanLiteral(false)),
        (16, TokenKind::RightCurlyBrace),
    ]) {
        Ok(ast) => ast,
        Err(_) => panic!("the blocks parse"),
    };
    assert_eq!(
        Compiler::new().compile(&ast).unwrap(),
        "@main\n@__0__\npush 'a'\nend\ncall __0__\n@__1__\npush false\nend\ncall __1__\nend"
    );
}

#[test]
fn compiler_jumps_over_the_branch_of_a_conditional() {
    let ast = match parse(vec![(1, TokenKind::If), (4, TokenKind::BooleanLiteral(true)), (9, TokenKind::IntegerLiteral(1))]) {
        Ok(ast) => ast,
        Err(_) => panic!("the conditional parses"),
    };
    assert_eq!(Compiler::new().compile(&ast).unwrap(), "@main\npush true\njmpf 7\npush 1\nend");
}

#[test]
fn compiler_negates_with_a_multiplication() {
    let ast = match parse(vec![(1, TokenKind::Minus), (2, TokenKind::IntegerLiteral(5))]) {
        Ok(ast) => ast,
        Err(_) => panic!("the negation parses"),
    };
    assert_eq!(Compiler::new().compile(&ast).unwrap(), "@main\npush 5\npush -1\npush mul\nend");
}

#[test]
fn compiler_refuses_what_it_has_no_code_for() {
    let ast = vec![Expression::new(ExpressionKind::Float { whole: 1, decimals: 5 }, 1)];
    assert!(!can_compile(&ast));
    let ast = vec![Expression::new(ExpressionKind::FunctionCallExpression("print".to_owned(), vec![]), 1)];
    assert!(!can_compile(&ast));
    match Compiler::new().compile(&ast) {
        Err(error) => assert_eq!(
            format!("{:?}", error),
            "Error { kind: SystemError(\"The Compiler Has No Code For Some Of The Expressions.\"), position: None }"
        ),
        Ok(_) => panic!("a call has no code"),
    }
}

#[test]
fn error_kinds_have_their_messages() {
    assert_eq!(ErrorKind::UnrecognizedArgument("-x".to_owned()).into_string(), "The Argument '-x' Is Not A Valid Argument.");
    assert_eq!(ErrorKind::InvalidNumberFormat.into_string(), "Invalid Number Format.");
    assert_eq!(ErrorKind::UnterminatedString.into_string(), "Expected The End Of This String.");
    assert_eq!(ErrorKind::SystemError("disk".to_owned()).into_string(), "disk");
    assert_eq!(
        ErrorKind::UnsupportedOperation("Minus".to_owned(), vec!["A".to_owned(), "B".to_owned(), "C".to_owned()]).into_string(),
        "The Operation 'Minus' Can Not Be Applied To A, B And C."
    );
    assert_eq!(Types::Float.into_string(), "A Float");
}

#[test]
fn errors_without_a_visible_line_name_the_line_and_column() {
    let error = Error::new(ErrorKind::UnknownCharacter, 3);
    assert_eq!(error.prettify("ab\n"), "An Error Occurred On Line 2 And Column 0.\nUnknown Character Found Here.");
    let error = Error::message_only(ErrorKind::InvalidNumberFormat);
    assert_eq!(error.prettify(""), "An Error Occurred.\nInvalid Number Format.");
}

#[test]
fn errors_point_at_their_column() {
    let error = Error::new(ErrorKind::UnknownCharacter, 3);
    assert_eq!(error.prettify("ab$cd"), "  |\n1 | ab$cd\n  |   ^-- Unknown Character Found Here.\n");
}

#[test]
fn compiler_writes_one_plus_one() {
    let ast = match parse(vec![(1, TokenKind::IntegerLiteral(1)), (3, TokenKind::Plus), (5, TokenKind::IntegerLiteral(1))]) {
        Ok(ast) => ast,
        Err(_) => panic!("the sum parses"),
    };
    let library = print_library();
    let mut checker = TypeChecker::new();
    assert!(checker.perform_type_checking(&ast, &library).is_ok());
    assert_eq!(Compiler::new().compile(&ast).unwrap(), "@main\npush 1\npush 1\npush add\nend");
}

#[test]
fn type_checker_reports_the_first_error_of_a_block() {
    let library = print_library();
    let checker = TypeChecker::new();
    let block = Expression::new(
        ExpressionKind::BlockExpression(vec![
            Expression::new(ExpressionKind::FunctionCallExpression("nope".to_owned(), vec![]), 2),
            Expression::new(ExpressionKind::Int(1), 9),
        ]),
        1,
    );
    match checker.check_types(&block, &library) {
        Ok(_) => panic!("expected an error"),
        Err(e) => assert_eq!(e.prettify("{nope() 1}"), "  |\n1 | {nope() 1}\n  |  ^-- Unknown Function Called Here.\n"),
    }
    let fine = Expression::new(
        ExpressionKind::BlockExpression(vec![
            Expression::new(ExpressionKind::Int(1), 2),
            Expression::new(ExpressionKind::String("s".to_owned()), 4),
        ]),
        1,
    );
    assert!(matches!(checker.check_types(&fine, &library), Ok(Some(Types::String))));
    let empty = Expression::new(ExpressionKind::BlockExpression(vec![]), 1);
    assert!(matches!(checker.check_types(&empty, &library), Ok(None)));
}

#[test]
fn parser_reads_comparisons() {
    // 1 < 1 = true
    let ast = match parse(vec![
        (1, TokenKind::IntegerLiteral(1)),
        (3, TokenKind::LeftAngleBracket),
        (5, TokenKind::IntegerLiteral(1)),
        (7, TokenKind::EqualSign),
        (9, TokenKind::BooleanLiteral(true)),
    ]) {
        Ok(ast) => ast,
        Err(_) => panic!("the comparison parses"),
    };
    assert_eq!(ast.len(), 1);
    match &ast[0].kind {
        ExpressionKind::BinaryEqualityExpression(BinaryEqualityOperation::Equals, left, right) => {
            assert!(matches!(left.kind, ExpressionKind::BinaryEqualityExpression(BinaryEqualityOperation::LessThan, _, _)));
            assert!(matches!(right.kind, ExpressionKind::Boolean(true)));
        },
        other => panic!("unexpected {:?}", other),
    }
    for (kind, op) in [
        (TokenKind::LessThanEqualSign, BinaryEqualityOperation::LessThanEqual),
        (TokenKind::RightAngleBracket, BinaryEqualityOperation::GreaterThan),
        (TokenKind::GreaterThanEqualSign, BinaryEqualityOperation::GreaterThanEqual),
        (TokenKind::ExclamationEqualSign, BinaryEqualityOperation::NotEquals),
    ] {
        let ast = match parse(vec![(1, TokenKind::IntegerLiteral(1)), (3, kind), (6, TokenKind::IntegerLiteral(2))]) {
            Ok(ast) => ast,
            Err(_) => panic!("the comparison parses"),
        };
        assert!(matches!(&ast[0].kind, ExpressionKind::BinaryEqualityExpression(o, _, _) if *o == op));
    }
    let ast = match parse(vec![(1, TokenKind::IntegerLiteral(1)), (3, TokenKind::LeftAngleBracket), (5, TokenKind::IntegerLiteral(2))]) {
        Ok(ast) => ast,
        Err(_) => panic!("the comparison parses"),
    };
    assert_eq!(Compiler::new().compile(&ast).unwrap(), "@main\npush 2\npush 1\npush lt pop pop\nend");
}

#[test]
fn parser_reads_an_else_branch() {
    // if true 1 else 2
    let ast = match parse(vec![
        (1, TokenKind::If),
        (4, TokenKind::BooleanLiteral(true)),
        (9, TokenKind::IntegerLiteral(1)),
        (11, TokenKind::Else),
        (16, TokenKind::IntegerLiteral(2)),
    ]) {
        Ok(ast) => ast,
        Err(_) => panic!("the conditional parses"),
    };
    assert_eq!(ast.len(), 1);
    match &ast[0].kind {
        ExpressionKind::IfExpression(condition, then_branch, Some(other)) => {
            assert!(matches!(condition.kind, ExpressionKind::Boolean(true)));
            assert!(matches!(then_branch.kind, ExpressionKind::Int(1)));
            assert!(matches!(other.kind, ExpressionKind::Int(2)));
            assert_eq!(other.pos, 16);
        },
        other => panic!("unexpected {:?}", other),
    }
    let library = print_library();
    let mut checker = TypeChecker::new();
    assert!(checker.perform_type_checking(&ast, &library).is_ok());
    assert!(can_compile(&ast));
    assert_eq!(Compiler::new().compile(&ast).unwrap(), "@main\npush true\njmpf 9\npush 1\njmp 11\npush 2\nend");
}

#[test]
fn parser_reports_a_missing_else_branch() {
    match parse(vec![(1, TokenKind::If), (4, TokenKind::BooleanLiteral(true)), (9, TokenKind::IntegerLiteral(1)), (11, TokenKind::Else)]) {
        Ok(_) => panic!("expected an error"),
        Err(e) => assert_eq!(
            e.prettify("if true 1 else"),
            format!("  |\n1 | if true 1 else\n  | {}^-- Expected An Expression After Here.\n", " ".repeat(10))
        ),
    }
}

#[test]
fn type_checker_checks_the_else_branch() {
    let library = print_library();
    let checker = TypeChecker::new();
    let conditional = Expression::new(
        ExpressionKind::IfExpression(
            Box::new(Expression::new(ExpressionKind::Boolean(true), 4)),
            Box::new(Expression::new(ExpressionKind::Int(1), 9)),
            Some(Box::new(Expression::new(ExpressionKind::FunctionCallExpression("nope".to_owned(), vec![]), 16))),
        ),
        1,
    );
    match checker.check_types(&conditional, &library) {
        Ok(_) => panic!("expected an error"),
        Err(e) => assert_eq!(
            e.prettify("if true 1 else nope()"),
            format!("  |\n1 | if true 1 else nope()\n  | {}^-- Unknown Function Called Here.\n", " ".repeat(15))
        ),
    }
}

#[test]
fn parser_reads_a_block_item_by_item() {
    let tokens = vec![
        (1, TokenKind::LeftCurlyBrace),
        (2, TokenKind::IntegerLiteral(1)),
        (4, TokenKind::IntegerLiteral(2)),
        (5, TokenKind::RightCurlyBrace),
    ];
    let ast = parse(tokens).unwrap_or_else(|_| panic!("the block parses"));
    assert_eq!(ast.len(), 1);
    match &ast[0].kind {
        ExpressionKind::BlockExpression(items) => {
            assert_eq!(items.len(), 2);
            assert!(matches!(items[0].kind, ExpressionKind::Int(1)));
            assert!(matches!(items[1].kind, ExpressionKind::Int(2)));
        },
        other => panic!("unexpected {:?}", other),
    }
    assert_eq!(ast[0].pos, 1);

    let tokens = vec![(1, TokenKind::LeftCurlyBrace), (2, TokenKind::IntegerLiteral(1))];
    let message = expect_error(parse(tokens), "{1");
    assert!(message.contains("Expected A Right Curly Brace After Here."));
}
