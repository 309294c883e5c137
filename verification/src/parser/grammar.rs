//! What the recursive-descent parser does, as functions from its state to
//! what it parses and the state it leaves behind.
//!
//! The state is the position of the last token the parser looked at (where
//! an error about a missing token is reported), the tokens still to parse,
//! the type given to each identifier, and the functions the program has
//! defined so far (for the type checks that bindings and definitions make).

use vstd::prelude::*;

use crate::ast::expression::{ExprKindView, ExprView, ParamView};
use crate::ast::expression_kind::{BinaryEqualityOperation, BinaryOperation, UnaryOperation};
use crate::errors::error::ErrorView;
use crate::errors::error_kind::ErrorKindView;
use crate::lexical_analysis::token::TokenKind;
use crate::semantic_analyzer::function::{name_index, replaced, FunctionView};
use crate::semantic_analyzer::type_checker::{check_spec, error_at};
use crate::semantic_analyzer::types::Types;

verus! {

/// The state of the parser.
pub struct ParserState {
    pub last: usize,
    pub tokens: Seq<(usize, TokenKind)>,
    pub ids: Map<Seq<char>, Types>,
    pub fns: Seq<FunctionView>,
}

/// The state with the first token taken.
pub open spec fn popped(s: ParserState) -> ParserState {
    ParserState { tokens: s.tokens.subrange(1, s.tokens.len() as int), ..s }
}

/// The state with `pos` as the last position seen.
pub open spec fn seen(s: ParserState, pos: usize) -> ParserState {
    ParserState { last: pos, ..s }
}

/// Whether the next token is of the kind `k` (compared by variant).
pub open spec fn next_is(s: ParserState, k: TokenKind) -> bool {
    s.tokens.len() > 0 && same_variant(s.tokens[0].1, k)
}

/// Whether two token kinds are the same variant.
pub open spec fn same_variant(a: TokenKind, b: TokenKind) -> bool {
    match (a, b) {
        (TokenKind::Colon, TokenKind::Colon) => true,
        (TokenKind::ColonEqualSign, TokenKind::ColonEqualSign) => true,
        (TokenKind::ColonColon, TokenKind::ColonColon) => true,
        (TokenKind::Comma, TokenKind::Comma) => true,
        (TokenKind::EqualSign, TokenKind::EqualSign) => true,
        (TokenKind::LeftParenthesis, TokenKind::LeftParenthesis) => true,
        (TokenKind::RightParenthesis, TokenKind::RightParenthesis) => true,
        (TokenKind::RightCurlyBrace, TokenKind::RightCurlyBrace) => true,
        _ => false,
    }
}

/// The type an identifier has been given, if any.
pub open spec fn known_type(s: ParserState, name: Seq<char>) -> Option<Types> {
    if s.ids.contains_key(name) {
        Some(s.ids[name])
    } else {
        None
    }
}

/// The error that answers a parse that cannot go on; no parse reaches it.
pub open spec fn stuck<T>(s: ParserState) -> (Result<T, ErrorView>, ParserState) {
    (Err(error_at(ErrorKindView::Expected("An Expression"@), s.last)), s)
}

/// An expression of kind `kind` at `pos`.
pub open spec fn node(kind: ExprKindView, pos: usize) -> ExprView {
    ExprView { kind, pos }
}

/// A type named after a colon (the colon already taken).
pub open spec fn type_annotation(s: ParserState) -> (Result<Types, ErrorView>, ParserState) {
    if s.tokens.len() == 0 {
        (Err(error_at(ErrorKindView::Expected("A Type"@), s.last)), s)
    } else {
        let (p, k) = s.tokens[0];
        match k {
            TokenKind::Int => (Ok(Types::Int), popped(s)),
            TokenKind::Float => (Ok(Types::Float), popped(s)),
            TokenKind::Boolean => (Ok(Types::Boolean), popped(s)),
            TokenKind::String => (Ok(Types::String), popped(s)),
            _ => (Err(error_at(ErrorKindView::TypeMismatch("A Type"@, k.name()), p)), popped(s)),
        }
    }
}

/// One expression: a binding, a block, a conditional, a definition, or an
/// equality and what it is made of.
pub open spec fn expression(s: ParserState, lib: Seq<FunctionView>) -> (Result<ExprView, ErrorView>, ParserState)
    decreases s.tokens.len(), 20int,
{
    if s.tokens.len() == 0 {
        (Err(error_at(ErrorKindView::Expected("An Expression"@), s.last)), s)
    } else {
        let (pos, k) = s.tokens[0];
        match k {
            TokenKind::Let => let_expression(seen(s, pos), lib),
            TokenKind::LeftCurlyBrace => block_expression(s, lib),
            TokenKind::If => if_expression(seen(s, pos), lib),
            TokenKind::Define => define_expression(seen(s, pos), lib),
            _ => equality(s, lib),
        }
    }
}

/// `let name`, an optional `: type`, and an optional `:= value`. The first
/// binding of a name gives it a type: the declared one when there is no
/// value, else the type of the value, which must have one. A name bound
/// before keeps its type, which a new declaration and a new value must
/// match.
pub open spec fn let_expression(s: ParserState, lib: Seq<FunctionView>) -> (Result<ExprView, ErrorView>, ParserState)
    decreases s.tokens.len(), 19int,
{
    if s.tokens.len() == 0 {
        stuck(s)
    } else {
        let pos = s.tokens[0].0;
        let s1 = popped(s);
        if s1.tokens.len() == 0 {
            (Err(error_at(ErrorKindView::Expected("An Identifier"@), s1.last)), s1)
        } else {
            match s1.tokens[0] {
                (ident_pos, TokenKind::Identifier(name)) => {
                    let s2 = popped(s1);
                    let (annotation, s4) = if next_is(s2, TokenKind::Colon) {
                        match type_annotation(popped(s2)) {
                            (Ok(t), s3) => (Ok(Some(t)), s3),
                            (Err(e), s3) => (Err(e), s3),
                        }
                    } else {
                        (Ok(None), s2)
                    };
                    match annotation {
                        Err(e) => (Err(e), s4),
                        Ok(var_type) => {
                            let declared = match var_type {
                                Some(t) => t,
                                None => Types::Any,
                            };
                            if var_type is Some && s4.ids.contains_key(name@) && s4.ids[name@] != Types::Any
                                && declared != s4.ids[name@] {
                                (
                                    Err(error_at(ErrorKindView::TypeMismatch(s4.ids[name@].name(), declared.name()), ident_pos)),
                                    s4,
                                )
                            } else if next_is(s4, TokenKind::ColonEqualSign) {
                                let (r, s6) = expression(popped(s4), lib);
                                match r {
                                    Err(e) => (Err(e), s6),
                                    Ok(value) => {
                                        let result = node(ExprKindView::Let(name@, declared, Some(Box::new(value))), pos);
                                        match check_spec(s6.fns, lib, value) {
                                            Err(e) => (Err(e), s6),
                                            Ok(value_type) => if !s6.ids.contains_key(name@) {
                                                match value_type {
                                                    None => (
                                                        Err(error_at(ErrorKindView::Expected("A Non-Void Type"@), value.pos)),
                                                        s6,
                                                    ),
                                                    Some(t) => (
                                                        Ok(result),
                                                        ParserState { ids: s6.ids.insert(name@, t), ..s6 },
                                                    ),
                                                }
                                            } else {
                                                let defined = s6.ids[name@];
                                                match value_type {
                                                    Some(t) => if defined != t {
                                                        (
                                                            Err(error_at(ErrorKindView::TypeMismatch(defined.name(), t.name()), value.pos)),
                                                            s6,
                                                        )
                                                    } else {
                                                        (Ok(result), s6)
                                                    },
                                                    None => if defined != Types::Void {
                                                        (Err(error_at(ErrorKindView::Expected(defined.name()), value.pos)), s6)
                                                    } else {
                                                        (Ok(result), s6)
                                                    },
                                                }
                                            },
                                        }
                                    },
                                }
                            } else {
                                let s5 = if !s4.ids.contains_key(name@) {
                                    ParserState { ids: s4.ids.insert(name@, declared), ..s4 }
                                } else {
                                    s4
                                };
                                (Ok(node(ExprKindView::Let(name@, declared, None), pos)), s5)
                            }
                        },
                    }
                },
                (p, k) => (Err(error_at(ErrorKindView::TypeMismatch("An Identifier"@, k.name()), p)), popped(s1)),
            }
        }
    }
}

/// `{`, expressions, and `}`.
pub open spec fn block_expression(s: ParserState, lib: Seq<FunctionView>) -> (Result<ExprView, ErrorView>, ParserState)
    decreases s.tokens.len(), 19int,
{
    if s.tokens.len() == 0 {
        stuck(s)
    } else {
        let pos = s.tokens[0].0;
        match block_items(seen(popped(s), pos), Seq::empty(), lib) {
            (Ok(exprs), s2) => (Ok(node(ExprKindView::Block(exprs), pos)), s2),
            (Err(e), s2) => (Err(e), s2),
        }
    }
}

/// The expressions of a block after `acc`, up to and with its `}`.
pub open spec fn block_items(s: ParserState, acc: Seq<ExprView>, lib: Seq<FunctionView>) -> (Result<Seq<ExprView>, ErrorView>, ParserState)
    decreases s.tokens.len(), 21int,
{
    if s.tokens.len() == 0 {
        (Err(error_at(ErrorKindView::Expected("A Right Curly Brace"@), s.last)), s)
    } else if next_is(s, TokenKind::RightCurlyBrace) {
        (Ok(acc), popped(s))
    } else {
        match expression(s, lib) {
            (Err(e), s1) => (Err(e), s1),
            (Ok(x), s1) => if s1.tokens.len() < s.tokens.len() {
                block_items(s1, acc.push(x), lib)
            } else {
                stuck(s1)
            },
        }
    }
}

/// `if`, a condition, the expression it guards, and, after `else`, the
/// expression taken when the condition fails.
pub open spec fn if_expression(s: ParserState, lib: Seq<FunctionView>) -> (Result<ExprView, ErrorView>, ParserState)
    decreases s.tokens.len(), 19int,
{
    if s.tokens.len() == 0 {
        stuck(s)
    } else {
        let pos = s.tokens[0].0;
        let s1 = popped(s);
        match expression(s1, lib) {
            (Err(e), s2) => (Err(e), s2),
            (Ok(condition), s2) => if s2.tokens.len() <= s1.tokens.len() {
                match expression(s2, lib) {
                    (Err(e), s3) => (Err(e), s3),
                    (Ok(code), s3) => if !(s3.tokens.len() > 0 && s3.tokens[0].1 is Else) {
                        (Ok(node(ExprKindView::If(Box::new(condition), Box::new(code), None), pos)), s3)
                    } else if s3.tokens.len() <= s2.tokens.len() {
                        else_branch(condition, code, pos, s3, lib)
                    } else {
                        stuck(s3)
                    },
                }
            } else {
                stuck(s2)
            },
        }
    }
}

/// The conditional of `condition` and `code` at `pos`, with the expression
/// after the `else` that starts the tokens of `s`.
pub open spec fn else_branch(condition: ExprView, code: ExprView, pos: usize, s: ParserState, lib: Seq<FunctionView>) -> (
    Result<ExprView, ErrorView>,
    ParserState,
)
    decreases s.tokens.len(), 21int,
{
    if s.tokens.len() == 0 {
        stuck(s)
    } else {
        match expression(seen(popped(s), s.tokens[0].0), lib) {
            (Err(e), s1) => (Err(e), s1),
            (Ok(other), s1) => (Ok(node(ExprKindView::If(Box::new(condition), Box::new(code), Some(Box::new(other))), pos)), s1),
        }
    }
}

/// One parameter: a name and an optional `: type` (`Any` without one).
pub open spec fn parameter(s: ParserState) -> (Result<ParamView, ErrorView>, ParserState) {
    if s.tokens.len() == 0 {
        (Err(error_at(ErrorKindView::Expected("An Identifier"@), s.last)), s)
    } else {
        match s.tokens[0] {
            (ident_pos, TokenKind::Identifier(name)) => {
                let s1 = popped(s);
                if next_is(s1, TokenKind::Colon) {
                    match type_annotation(popped(s1)) {
                        (Ok(t), s2) => (Ok(ParamView { pos: ident_pos, name: name@, expected_type: t }), s2),
                        (Err(e), s2) => (Err(e), s2),
                    }
                } else {
                    (Ok(ParamView { pos: ident_pos, name: name@, expected_type: Types::Any }), s1)
                }
            },
            (p, k) => (Err(error_at(ErrorKindView::TypeMismatch("An Identifier"@, k.name()), p)), popped(s)),
        }
    }
}

/// The parameters after `acc`, each after a comma.
pub open spec fn more_parameters(s: ParserState, acc: Seq<ParamView>) -> (Result<Seq<ParamView>, ErrorView>, ParserState)
    decreases s.tokens.len(),
{
    if next_is(s, TokenKind::Comma) {
        let s1 = seen(popped(s), s.tokens[0].0);
        match parameter(s1) {
            (Err(e), s2) => (Err(e), s2),
            (Ok(p), s2) => if s2.tokens.len() < s.tokens.len() {
                more_parameters(s2, acc.push(p))
            } else {
                stuck(s2)
            },
        }
    } else {
        (Ok(acc), s)
    }
}

/// Parameters separated by commas.
pub open spec fn parameters(s: ParserState) -> (Result<Seq<ParamView>, ErrorView>, ParserState) {
    match parameter(s) {
        (Err(e), s1) => (Err(e), s1),
        (Ok(p), s1) => more_parameters(s1, seq![p]),
    }
}

/// The types of the parameters `params`, in order.
pub open spec fn param_types(params: Seq<ParamView>) -> Seq<Types> {
    params.map_values(|p: ParamView| p.expected_type)
}

/// The identifier table once each parameter of `params` before index `n` is
/// given its type, and the names it took a type from, with that type.
pub open spec fn bind_parameters(ids: Map<Seq<char>, Types>, params: Seq<ParamView>, n: int) -> (Map<Seq<char>, Types>, Seq<(Seq<char>, Types)>)
    decreases n,
{
    if n <= 0 {
        (ids, Seq::empty())
    } else {
        let (m, olds) = bind_parameters(ids, params, n - 1);
        let p = params[n - 1];
        let olds2 = if m.contains_key(p.name) { olds.push((p.name, m[p.name])) } else { olds };
        (m.insert(p.name, p.expected_type), olds2)
    }
}

/// The identifier table with the names of the parameters before index `n`
/// taken away.
pub open spec fn unbind_parameters(ids: Map<Seq<char>, Types>, params: Seq<ParamView>, n: int) -> Map<Seq<char>, Types>
    decreases n,
{
    if n <= 0 {
        ids
    } else {
        unbind_parameters(ids, params, n - 1).remove(params[n - 1].name)
    }
}

/// The identifier table with the entries of `olds` before index `n` put
/// back, in order.
pub open spec fn restore(ids: Map<Seq<char>, Types>, olds: Seq<(Seq<char>, Types)>, n: int) -> Map<Seq<char>, Types>
    decreases n,
{
    if n <= 0 {
        ids
    } else {
        restore(ids, olds, n - 1).insert(olds[n - 1].0, olds[n - 1].1)
    }
}

/// `define name(parameters) :: type = body`, the return type optional. The
/// parameters have their types while the body is parsed and lose them
/// after; a missing return type is the type of the body. The function is
/// then known to the type checker.
pub open spec fn define_expression(s: ParserState, lib: Seq<FunctionView>) -> (Result<ExprView, ErrorView>, ParserState)
    decreases s.tokens.len(), 19int,
{
    if s.tokens.len() == 0 {
        stuck(s)
    } else {
        let s1 = popped(s);
        if s1.tokens.len() == 0 {
            (Err(error_at(ErrorKindView::Expected("An Identifier"@), s1.last)), s1)
        } else {
            match s1.tokens[0] {
                (pos, TokenKind::Identifier(name)) => {
                    let s2 = popped(s1);
                    if s2.tokens.len() == 0 {
                        (Err(error_at(ErrorKindView::Expected("A Left Parenthesis"@), s2.last)), s2)
                    } else {
                        match s2.tokens[0] {
                            (left_pos, TokenKind::LeftParenthesis) => define_signature(pos, name@, seen(popped(s2), left_pos), lib),
                            (p, k) => (Err(error_at(ErrorKindView::TypeMismatch("A Left Parenthesis"@, k.name()), p)), popped(s2)),
                        }
                    }
                },
                (p, k) => (Err(error_at(ErrorKindView::TypeMismatch("An Identifier"@, k.name()), p)), popped(s1)),
            }
        }
    }
}

/// The parameters of a definition after its `(` up to the `=` before its
/// body; the parameters are given their types once the `)` is read.
pub open spec fn define_signature(pos: usize, name: Seq<char>, s3: ParserState, lib: Seq<FunctionView>) -> (Result<ExprView, ErrorView>, ParserState)
    decreases s3.tokens.len(), 19int,
{
    let (listed, s4) = if next_is(s3, TokenKind::RightParenthesis) {
        (Ok((Seq::<ParamView>::empty(), Seq::<(Seq<char>, Types)>::empty())), seen(popped(s3), s3.tokens[0].0))
    } else {
        match parameters(s3) {
            (Err(e), s3a) => (Err(e), s3a),
            (Ok(params), s3a) => if s3a.tokens.len() == 0 {
                (Err(error_at(ErrorKindView::Expected("A Right Parenthesis"@), s3a.last)), s3a)
            } else if next_is(s3a, TokenKind::RightParenthesis) {
                let s3b = seen(popped(s3a), s3a.tokens[0].0);
                let (bound, olds) = bind_parameters(s3b.ids, params, params.len() as int);
                (Ok((params, olds)), ParserState { ids: bound, ..s3b })
            } else {
                (
                    Err(error_at(ErrorKindView::TypeMismatch("A Right Parenthesis"@, s3a.tokens[0].1.name()), s3a.tokens[0].0)),
                    popped(s3a),
                )
            },
        }
    };
    match listed {
        Err(e) => (Err(e), s4),
        Ok((params, olds)) => {
            let (declared, s5) = if next_is(s4, TokenKind::ColonColon) {
                match type_annotation(seen(popped(s4), s4.tokens[0].0)) {
                    (Ok(t), s5a) => (Ok(Some(t)), s5a),
                    (Err(e), s5a) => (Err(e), s5a),
                }
            } else {
                (Ok(None), s4)
            };
            match declared {
                Err(e) => (Err(e), s5),
                Ok(return_type) => if s5.tokens.len() == 0 {
                    (Err(error_at(ErrorKindView::Expected("An Equal Sign"@), s5.last)), s5)
                } else if !next_is(s5, TokenKind::EqualSign) {
                    (Err(error_at(ErrorKindView::TypeMismatch("An Equal Sign"@, s5.tokens[0].1.name()), s5.tokens[0].0)), popped(s5))
                } else {
                    let s6 = seen(popped(s5), s5.tokens[0].0);
                    if s6.tokens.len() < s3.tokens.len() {
                        define_body(pos, name, params, olds, return_type, s6, lib)
                    } else {
                        stuck(s6)
                    }
                },
            }
        },
    }
}

/// The body of a definition and what follows it: the return type settled,
/// the parameters' types taken back, and the function made known.
pub open spec fn define_body(
    pos: usize,
    name: Seq<char>,
    params: Seq<ParamView>,
    olds: Seq<(Seq<char>, Types)>,
    return_type: Option<Types>,
    s6: ParserState,
    lib: Seq<FunctionView>,
) -> (Result<ExprView, ErrorView>, ParserState)
    decreases s6.tokens.len(), 23int,
{
    match expression(s6, lib) {
        (Err(e), s7) => (Err(e), s7),
        (Ok(body), s7) => {
            let checked = match return_type {
                Some(t) => Ok(Some(t)),
                None => check_spec(s7.fns, lib, body),
            };
            match checked {
                Err(e) => (Err(e), s7),
                Ok(rt) => {
                    let result_type = match rt {
                        Some(t) => t,
                        None => Types::Void,
                    };
                    let f = FunctionView {
                        name,
                        number_of_args: params.len() as usize,
                        parameter_types: param_types(params),
                        return_type: result_type,
                    };
                    let ids = restore(unbind_parameters(s7.ids, params, params.len() as int), olds, olds.len() as int);
                    (
                        Ok(node(ExprKindView::Define(name, params, Box::new(body), result_type), pos)),
                        ParserState { ids, fns: replaced(s7.fns, name_index(s7.fns, name), f), ..s7 },
                    )
                },
            }
        },
    }
}

/// The arguments of a call: expressions separated by commas.
pub open spec fn arguments(s: ParserState, lib: Seq<FunctionView>) -> (Result<Seq<ExprView>, ErrorView>, ParserState)
    decreases s.tokens.len(), 21int,
{
    match expression(s, lib) {
        (Err(e), s1) => (Err(e), s1),
        (Ok(a), s1) => if s1.tokens.len() <= s.tokens.len() {
            more_arguments(s1, seq![a], lib)
        } else {
            stuck(s1)
        },
    }
}

/// The arguments after `acc`, each after a comma.
pub open spec fn more_arguments(s: ParserState, acc: Seq<ExprView>, lib: Seq<FunctionView>) -> (Result<Seq<ExprView>, ErrorView>, ParserState)
    decreases s.tokens.len(), 5int,
{
    if next_is(s, TokenKind::Comma) {
        let s1 = seen(popped(s), s.tokens[0].0);
        match expression(s1, lib) {
            (Err(e), s2) => (Err(e), s2),
            (Ok(a), s2) => if s2.tokens.len() < s.tokens.len() {
                more_arguments(s2, acc.push(a), lib)
            } else {
                stuck(s2)
            },
        }
    } else {
        (Ok(acc), s)
    }
}

/// A call of the function `name` (whose name is already taken, at `pos`):
/// `(`, the arguments, and `)`.
pub open spec fn function_call(pos: usize, name: Seq<char>, s: ParserState, lib: Seq<FunctionView>) -> (Result<ExprView, ErrorView>, ParserState)
    decreases s.tokens.len(), 14int,
{
    if s.tokens.len() == 0 {
        (Err(error_at(ErrorKindView::Expected("A Left Parenthesis"@), s.last)), s)
    } else if !next_is(s, TokenKind::LeftParenthesis) {
        (Err(error_at(ErrorKindView::TypeMismatch("A Left Parenthesis"@, s.tokens[0].1.name()), s.tokens[0].0)), popped(s))
    } else {
        call_arguments(pos, name, seen(popped(s), s.tokens[0].0), lib)
    }
}

/// The arguments of a call after its `(`, and its `)`.
pub open spec fn call_arguments(pos: usize, name: Seq<char>, s: ParserState, lib: Seq<FunctionView>) -> (Result<ExprView, ErrorView>, ParserState)
    decreases s.tokens.len(), 22int,
{
    if next_is(s, TokenKind::RightParenthesis) {
        (Ok(node(ExprKindView::FunctionCall(name, Seq::empty()), pos)), popped(s))
    } else {
        match arguments(s, lib) {
            (Err(e), s2) => (Err(e), s2),
            (Ok(args), s2) => if s2.tokens.len() == 0 {
                (Err(error_at(ErrorKindView::Expected("A Right Parenthesis"@), s2.last)), s2)
            } else if next_is(s2, TokenKind::RightParenthesis) {
                (Ok(node(ExprKindView::FunctionCall(name, args), pos)), popped(s2))
            } else {
                (Err(error_at(ErrorKindView::TypeMismatch("A Right Parenthesis"@, s2.tokens[0].1.name()), s2.tokens[0].0)), popped(s2))
            },
        }
    }
}

/// The equality operator the next token writes, if it writes one.
pub open spec fn equality_operator(k: TokenKind) -> Option<BinaryEqualityOperation> {
    match k {
        TokenKind::EqualSign => Some(BinaryEqualityOperation::Equals),
        TokenKind::ExclamationEqualSign => Some(BinaryEqualityOperation::NotEquals),
        TokenKind::LeftAngleBracket => Some(BinaryEqualityOperation::LessThan),
        TokenKind::LessThanEqualSign => Some(BinaryEqualityOperation::LessThanEqual),
        TokenKind::RightAngleBracket => Some(BinaryEqualityOperation::GreaterThan),
        TokenKind::GreaterThanEqualSign => Some(BinaryEqualityOperation::GreaterThanEqual),
        _ => None,
    }
}

/// The operator of a term the token writes, if it writes one.
pub open spec fn term_operator(k: TokenKind) -> Option<BinaryOperation> {
    match k {
        TokenKind::Plus => Some(BinaryOperation::Plus),
        TokenKind::Minus => Some(BinaryOperation::Minus),
        TokenKind::Or => Some(BinaryOperation::Or),
        TokenKind::And => Some(BinaryOperation::And),
        _ => None,
    }
}

/// The operator of a factor the token writes, if it writes one.
pub open spec fn factor_operator(k: TokenKind) -> Option<BinaryOperation> {
    match k {
        TokenKind::Star => Some(BinaryOperation::Multiply),
        TokenKind::Slash => Some(BinaryOperation::Divide),
        TokenKind::PercentSign => Some(BinaryOperation::Modulus),
        _ => None,
    }
}

/// Terms joined by equality operators, grouped from the left.
pub open spec fn equality(s: ParserState, lib: Seq<FunctionView>) -> (Result<ExprView, ErrorView>, ParserState)
    decreases s.tokens.len(), 18int,
{
    match term(s, lib) {
        (Err(e), s1) => (Err(e), s1),
        (Ok(left), s1) => if s1.tokens.len() <= s.tokens.len() {
            more_equality(left, s1, lib)
        } else {
            stuck(s1)
        },
    }
}

/// The equality operators and terms that follow `left`.
pub open spec fn more_equality(left: ExprView, s: ParserState, lib: Seq<FunctionView>) -> (Result<ExprView, ErrorView>, ParserState)
    decreases s.tokens.len(), 1int,
{
    if s.tokens.len() > 0 && equality_operator(s.tokens[0].1) is Some {
        let pos = s.tokens[0].0;
        let op = equality_operator(s.tokens[0].1)->0;
        let s1 = seen(popped(s), pos);
        match term(s1, lib) {
            (Err(e), s2) => (Err(e), s2),
            (Ok(right), s2) => if s2.tokens.len() < s.tokens.len() {
                more_equality(node(ExprKindView::BinaryEquality(op, Box::new(left), Box::new(right)), pos), s2, lib)
            } else {
                stuck(s2)
            },
        }
    } else {
        (Ok(left), s)
    }
}

/// Factors joined by `+`, `-`, `or` and `and`, grouped from the left.
pub open spec fn term(s: ParserState, lib: Seq<FunctionView>) -> (Result<ExprView, ErrorView>, ParserState)
    decreases s.tokens.len(), 17int,
{
    match factor(s, lib) {
        (Err(e), s1) => (Err(e), s1),
        (Ok(left), s1) => if s1.tokens.len() <= s.tokens.len() {
            more_terms(left, s1, lib)
        } else {
            stuck(s1)
        },
    }
}

/// The term operators and factors that follow `left`.
pub open spec fn more_terms(left: ExprView, s: ParserState, lib: Seq<FunctionView>) -> (Result<ExprView, ErrorView>, ParserState)
    decreases s.tokens.len(), 1int,
{
    if s.tokens.len() > 0 && term_operator(s.tokens[0].1) is Some {
        let pos = s.tokens[0].0;
        let op = term_operator(s.tokens[0].1)->0;
        let s1 = seen(popped(s), pos);
        match factor(s1, lib) {
            (Err(e), s2) => (Err(e), s2),
            (Ok(right), s2) => if s2.tokens.len() < s.tokens.len() {
                more_terms(node(ExprKindView::InfixBinary(op, Box::new(left), Box::new(right)), pos), s2, lib)
            } else {
                stuck(s2)
            },
        }
    } else {
        (Ok(left), s)
    }
}

/// Primaries joined by `*`, `/` and `%`, grouped from the left.
pub open spec fn factor(s: ParserState, lib: Seq<FunctionView>) -> (Result<ExprView, ErrorView>, ParserState)
    decreases s.tokens.len(), 16int,
{
    match primary(s, lib) {
        (Err(e), s1) => (Err(e), s1),
        (Ok(left), s1) => if s1.tokens.len() <= s.tokens.len() {
            more_factors(left, s1, lib)
        } else {
            stuck(s1)
        },
    }
}

/// The factor operators and primaries that follow `left`.
pub open spec fn more_factors(left: ExprView, s: ParserState, lib: Seq<FunctionView>) -> (Result<ExprView, ErrorView>, ParserState)
    decreases s.tokens.len(), 1int,
{
    if s.tokens.len() > 0 && factor_operator(s.tokens[0].1) is Some {
        let pos = s.tokens[0].0;
        let op = factor_operator(s.tokens[0].1)->0;
        let s1 = seen(popped(s), pos);
        match primary(s1, lib) {
            (Err(e), s2) => (Err(e), s2),
            (Ok(right), s2) => if s2.tokens.len() < s.tokens.len() {
                more_factors(node(ExprKindView::InfixBinary(op, Box::new(left), Box::new(right)), pos), s2, lib)
            } else {
                stuck(s2)
            },
        }
    } else {
        (Ok(left), s)
    }
}

/// A sign applied to the primary after it.
pub open spec fn signed(op: UnaryOperation, pos: usize, s: ParserState, lib: Seq<FunctionView>) -> (Result<ExprView, ErrorView>, ParserState)
    decreases s.tokens.len(), 16int,
{
    match primary(s, lib) {
        (Err(e), s1) => (Err(e), s1),
        (Ok(v), s1) => (Ok(node(ExprKindView::Unary(op, Box::new(v)), pos)), s1),
    }
}

/// A literal, a name, a call, a sign applied to a primary, or an expression
/// in parentheses.
pub open spec fn primary(s: ParserState, lib: Seq<FunctionView>) -> (Result<ExprView, ErrorView>, ParserState)
    decreases s.tokens.len(), 15int,
{
    if s.tokens.len() == 0 {
        (Err(error_at(ErrorKindView::Expected("An Int, A Float, Or A Left Parenthesis"@), s.last)), s)
    } else {
        let (pos, k) = s.tokens[0];
        let s1 = popped(s);
        match k {
            TokenKind::IntegerLiteral(v) => (Ok(node(ExprKindView::Int(v), pos)), seen(s1, pos)),
            TokenKind::FloatLiteral { whole, decimals } => (Ok(node(ExprKindView::Float { whole, decimals }, pos)), seen(s1, pos)),
            TokenKind::BooleanLiteral(b) => (Ok(node(ExprKindView::Boolean(b), pos)), seen(s1, pos)),
            TokenKind::StringLiteral(v) => (Ok(node(ExprKindView::String(v@), pos)), seen(s1, pos)),
            TokenKind::Identifier(name) => if next_is(s1, TokenKind::LeftParenthesis) {
                function_call(pos, name@, s1, lib)
            } else {
                (Ok(node(ExprKindView::Identifier(name@, known_type(s1, name@)), pos)), seen(s1, pos))
            },
            TokenKind::Plus => signed(UnaryOperation::Positive, pos, seen(s1, pos), lib),
            TokenKind::Minus => signed(UnaryOperation::Negative, pos, seen(s1, pos), lib),
            TokenKind::Not => signed(UnaryOperation::Not, pos, seen(s1, pos), lib),
            TokenKind::LeftParenthesis => match expression(seen(s1, pos), lib) {
                (Err(e), s2) => (Err(e), s2),
                (Ok(inner), s2) => if next_is(s2, TokenKind::RightParenthesis) {
                    (Ok(node(ExprKindView::Parenthesized(Box::new(inner)), pos)), seen(popped(s2), s2.tokens[0].0))
                } else {
                    (Err(error_at(ErrorKindView::Expected("A Right Parenthesis"@), s2.last)), s2)
                },
            },
            _ => (
                Err(error_at(ErrorKindView::TypeMismatch("An Int, A Float, Or A Left Parenthesis"@, k.name()), pos)),
                s1,
            ),
        }
    }
}

/// Expressions after `acc` until the tokens run out.
pub open spec fn program(s: ParserState, acc: Seq<ExprView>, lib: Seq<FunctionView>) -> (Result<Seq<ExprView>, ErrorView>, ParserState)
    decreases s.tokens.len(),
{
    if s.tokens.len() == 0 {
        (Ok(acc), s)
    } else {
        match expression(s, lib) {
            (Err(e), s1) => (Err(e), s1),
            (Ok(x), s1) => if s1.tokens.len() < s.tokens.len() {
                program(s1, acc.push(x), lib)
            } else {
                stuck(s1)
            },
        }
    }
}

/// A program is its expressions read one after another. `states` are the
/// states the parser passes through: from each but the last, the
/// expression parser reads `exprs[i]`, at least one token, and leaves the
/// next. Where the last state has no token left, the program is `acc`
/// followed by `exprs`, and parsing ends in the last state; where instead
/// the expression parser fails on the last state with `e`, the program
/// fails with that first error.
pub proof fn lemma_program_reads_each_expression(
    states: Seq<ParserState>,
    exprs: Seq<ExprView>,
    acc: Seq<ExprView>,
    lib: Seq<FunctionView>,
)
    requires
        states.len() == exprs.len() + 1,
        forall|i: int|
            0 <= i < exprs.len() ==> #[trigger] expression(states[i], lib) == (
                Ok::<ExprView, ErrorView>(exprs[i]),
                states[i + 1],
            ),
        forall|i: int| 0 <= i < exprs.len() ==> #[trigger] states[i + 1].tokens.len() < states[i].tokens.len(),
    ensures
        states.last().tokens.len() == 0 ==> program(states[0], acc, lib) == (
            Ok::<Seq<ExprView>, ErrorView>(acc + exprs),
            states.last(),
        ),
        states.last().tokens.len() > 0 ==> (expression(states.last(), lib).0 is Err ==> program(states[0], acc, lib)
            == (Err::<Seq<ExprView>, ErrorView>(expression(states.last(), lib).0->Err_0), expression(
            states.last(),
            lib,
        ).1)),
    decreases exprs.len(),
{
    if exprs.len() == 0 {
        assert(acc + exprs =~= acc);
    } else {
        let rest = states.drop_first();
        assert forall|i: int| 0 <= i < exprs.drop_first().len() implies #[trigger] expression(rest[i], lib) == (
            Ok::<ExprView, ErrorView>(exprs.drop_first()[i]),
            rest[i + 1],
        ) by {
            assert(expression(states[i + 1], lib) == (Ok::<ExprView, ErrorView>(exprs[i + 1]), states[i + 2]));
        }
        assert forall|i: int| 0 <= i < exprs.drop_first().len() implies #[trigger] rest[i + 1].tokens.len()
            < rest[i].tokens.len() by {
            assert(states[(i + 1) + 1].tokens.len() < states[i + 1].tokens.len());
        }
        assert(expression(states[0], lib) == (Ok::<ExprView, ErrorView>(exprs[0]), states[1]));
        assert(states[1].tokens.len() < states[0].tokens.len());
        lemma_program_reads_each_expression(rest, exprs.drop_first(), acc.push(exprs[0]), lib);
        assert(acc.push(exprs[0]) + exprs.drop_first() =~= acc + exprs);
    }
}

/// The items of a block read one after another (see
/// `lemma_program_reads_each_expression`), none of them starting with `}`:
/// at a `}` they are `acc` followed by `exprs`, the `}` read; with no token
/// left, the block is missing its `}`.
pub proof fn lemma_block_items_read_each_expression(
    states: Seq<ParserState>,
    exprs: Seq<ExprView>,
    acc: Seq<ExprView>,
    lib: Seq<FunctionView>,
)
    requires
        states.len() == exprs.len() + 1,
        forall|i: int|
            0 <= i < exprs.len() ==> #[trigger] expression(states[i], lib) == (
                Ok::<ExprView, ErrorView>(exprs[i]),
                states[i + 1],
            ),
        forall|i: int| 0 <= i < exprs.len() ==> #[trigger] states[i + 1].tokens.len() < states[i].tokens.len(),
        forall|i: int| 0 <= i < exprs.len() ==> !next_is(#[trigger] states[i], TokenKind::RightCurlyBrace),
    ensures
        next_is(states.last(), TokenKind::RightCurlyBrace) ==> block_items(states[0], acc, lib) == (
            Ok::<Seq<ExprView>, ErrorView>(acc + exprs),
            popped(states.last()),
        ),
        states.last().tokens.len() == 0 ==> block_items(states[0], acc, lib) == (
            Err::<Seq<ExprView>, ErrorView>(error_at(ErrorKindView::Expected("A Right Curly Brace"@), states.last().last)),
            states.last(),
        ),
    decreases exprs.len(),
{
    if exprs.len() == 0 {
        assert(acc + exprs =~= acc);
    } else {
        let rest = states.drop_first();
        assert forall|i: int| 0 <= i < exprs.drop_first().len() implies #[trigger] expression(rest[i], lib) == (
            Ok::<ExprView, ErrorView>(exprs.drop_first()[i]),
            rest[i + 1],
        ) by {
            assert(expression(states[i + 1], lib) == (Ok::<ExprView, ErrorView>(exprs[i + 1]), states[i + 2]));
        }
        assert forall|i: int| 0 <= i < exprs.drop_first().len() implies #[trigger] rest[i + 1].tokens.len()
            < rest[i].tokens.len() by {
            assert(states[(i + 1) + 1].tokens.len() < states[i + 1].tokens.len());
        }
        assert forall|i: int| 0 <= i < exprs.drop_first().len() implies !next_is(
            #[trigger] rest[i],
            TokenKind::RightCurlyBrace,
        ) by {
            assert(!next_is(states[i + 1], TokenKind::RightCurlyBrace));
        }
        assert(expression(states[0], lib) == (Ok::<ExprView, ErrorView>(exprs[0]), states[1]));
        assert(states[1].tokens.len() < states[0].tokens.len());
        assert(!next_is(states[0], TokenKind::RightCurlyBrace));
        lemma_block_items_read_each_expression(rest, exprs.drop_first(), acc.push(exprs[0]), lib);
        assert(acc.push(exprs[0]) + exprs.drop_first() =~= acc + exprs);
    }
}

/// A block is `{` and its expressions read one after another up to its
/// `}`: `states` start just after the `{` (its position the last seen),
/// and from each but the last the expression parser reads `exprs[i]`, at
/// least one token, none starting with `}`. At a `}` the block holds
/// `exprs`, at the position of its `{`, the `}` read; with no token left,
/// the error is that a `}` was expected after the last position seen.
pub proof fn lemma_block_reads_each_expression(
    s: ParserState,
    states: Seq<ParserState>,
    exprs: Seq<ExprView>,
    lib: Seq<FunctionView>,
)
    requires
        s.tokens.len() > 0,
        states.len() == exprs.len() + 1,
        states[0] == seen(popped(s), s.tokens[0].0),
        forall|i: int|
            0 <= i < exprs.len() ==> #[trigger] expression(states[i], lib) == (
                Ok::<ExprView, ErrorView>(exprs[i]),
                states[i + 1],
            ),
        forall|i: int| 0 <= i < exprs.len() ==> #[trigger] states[i + 1].tokens.len() < states[i].tokens.len(),
        forall|i: int| 0 <= i < exprs.len() ==> !next_is(#[trigger] states[i], TokenKind::RightCurlyBrace),
    ensures
        next_is(states.last(), TokenKind::RightCurlyBrace) ==> block_expression(s, lib) == (
            Ok::<ExprView, ErrorView>(node(ExprKindView::Block(exprs), s.tokens[0].0)),
            popped(states.last()),
        ),
        states.last().tokens.len() == 0 ==> block_expression(s, lib) == (
            Err::<ExprView, ErrorView>(error_at(ErrorKindView::Expected("A Right Curly Brace"@), states.last().last)),
            states.last(),
        ),
{
    lemma_block_items_read_each_expression(states, exprs, Seq::empty(), lib);
    assert(Seq::<ExprView>::empty() + exprs =~= exprs);
}

/// `if`, a condition, the guarded expression and, after `else`, the other
/// expression: where the expression parser reads the condition `c` just
/// after the `if`, then the guarded expression `t`, each at least one
/// token, the conditional is `If(c, t, Some(f))` at the position of the
/// `if` when an `else` follows and the expression after it is `f`, and
/// `If(c, t, None)` when no `else` follows.
pub proof fn lemma_if_reads_its_branches(
    s: ParserState,
    lib: Seq<FunctionView>,
    c: ExprView,
    s2: ParserState,
    t: ExprView,
    s3: ParserState,
)
    requires
        s.tokens.len() > 0,
        expression(popped(s), lib) == (Ok::<ExprView, ErrorView>(c), s2),
        s2.tokens.len() < popped(s).tokens.len(),
        expression(s2, lib) == (Ok::<ExprView, ErrorView>(t), s3),
        s3.tokens.len() < s2.tokens.len(),
    ensures
        !(s3.tokens.len() > 0 && s3.tokens[0].1 is Else) ==> if_expression(s, lib) == (
            Ok::<ExprView, ErrorView>(node(ExprKindView::If(Box::new(c), Box::new(t), None), s.tokens[0].0)),
            s3,
        ),
        (s3.tokens.len() > 0 && s3.tokens[0].1 is Else) ==> (expression(seen(popped(s3), s3.tokens[0].0), lib).0 matches Ok(f)
            ==> if_expression(s, lib) == (
            Ok::<ExprView, ErrorView>(
                node(ExprKindView::If(Box::new(c), Box::new(t), Some(Box::new(f))), s.tokens[0].0),
            ),
            expression(seen(popped(s3), s3.tokens[0].0), lib).1,
        )),
{
}

/// The parameter list of a definition, from just after its `(` at `s3`,
/// is read as `params` up to its `)`, the parameters then given their types
/// (`olds` being what they hid), which leaves `s4`: a `)` right away and no
/// parameters, or the parameters read, leaving `s3a` at the `)`.
pub open spec fn reads_parameters(
    s3: ParserState,
    params: Seq<ParamView>,
    olds: Seq<(Seq<char>, Types)>,
    s3a: ParserState,
    s4: ParserState,
) -> bool {
    ||| next_is(s3, TokenKind::RightParenthesis) && params.len() == 0 && olds.len() == 0 && s4 == seen(
        popped(s3),
        s3.tokens[0].0,
    )
    ||| {
        &&& !next_is(s3, TokenKind::RightParenthesis)
        &&& parameters(s3) == (Ok::<Seq<ParamView>, ErrorView>(params), s3a)
        &&& s3a.tokens.len() <= s3.tokens.len()
        &&& next_is(s3a, TokenKind::RightParenthesis)
        &&& bind_parameters(seen(popped(s3a), s3a.tokens[0].0).ids, params, params.len() as int) == (s4.ids, olds)
        &&& s4 == ParserState { ids: s4.ids, ..seen(popped(s3a), s3a.tokens[0].0) }
    }
}

/// A definition without a declared return type takes the type of its body.
/// The tokens of `s` are `define`, the name `name` at `pos` and a `(` at
/// `left_pos`; then either a `)` right away (no parameters), or the
/// parameters `params`, read up to a `)`, are given their types (`olds`
/// being what they hid). What follows is no `::` but an `=`, after which the
/// expression parser reads the body `body`, leaving `s7`, and the type
/// checker gives it the type `rt` (`None` for no value). The definition is
/// then `name`, `params`, `body` and `rt` (`Void` for none), at `pos`; the
/// parameters lose their types again, and `name` becomes a function of
/// `params.len()` arguments of their types, returning that type.
pub proof fn lemma_define_infers_return_type(
    s: ParserState,
    lib: Seq<FunctionView>,
    name: Seq<char>,
    pos: usize,
    left_pos: usize,
    params: Seq<ParamView>,
    olds: Seq<(Seq<char>, Types)>,
    s3a: ParserState,
    s4: ParserState,
    body: ExprView,
    s7: ParserState,
    rt: Option<Types>,
)
    requires
        s.tokens.len() >= 3,
        s.tokens[1].0 == pos,
        s.tokens[1].1 matches TokenKind::Identifier(n) && n@ == name,
        s.tokens[2] == (left_pos, TokenKind::LeftParenthesis),
        reads_parameters(seen(popped(popped(popped(s))), left_pos), params, olds, s3a, s4),
        !next_is(s4, TokenKind::ColonColon),
        next_is(s4, TokenKind::EqualSign),
        expression(seen(popped(s4), s4.tokens[0].0), lib) == (Ok::<ExprView, ErrorView>(body), s7),
        check_spec(s7.fns, lib, body) == Ok::<Option<Types>, ErrorView>(rt),
    ensures
        ({
            let result_type = match rt {
                Some(t) => t,
                None => Types::Void,
            };
            let f = FunctionView {
                name,
                number_of_args: params.len() as usize,
                parameter_types: param_types(params),
                return_type: result_type,
            };
            let ids = restore(unbind_parameters(s7.ids, params, params.len() as int), olds, olds.len() as int);
            define_expression(s, lib) == (
                Ok::<ExprView, ErrorView>(node(ExprKindView::Define(name, params, Box::new(body), result_type), pos)),
                ParserState { ids, fns: replaced(s7.fns, name_index(s7.fns, name), f), ..s7 },
            )
        }),
{
    let s1 = popped(s);
    let s2 = popped(s1);
    assert(s1.tokens[0] == s.tokens[1]);
    assert(s2.tokens[0] == s.tokens[2]);
    let s3 = seen(popped(s2), left_pos);
    assert(define_expression(s, lib) == define_signature(pos, name, s3, lib));
    lemma_define_signature_without_return_type(pos, name, s3, lib, params, olds, s3a, s4);
}

/// The step of `lemma_define_infers_return_type` from the signature to the
/// body: with the parameters read as there and no `::`, what follows the
/// `=` is the body of the definition.
proof fn lemma_define_signature_without_return_type(
    pos: usize,
    name: Seq<char>,
    s3: ParserState,
    lib: Seq<FunctionView>,
    params: Seq<ParamView>,
    olds: Seq<(Seq<char>, Types)>,
    s3a: ParserState,
    s4: ParserState,
)
    requires
        reads_parameters(s3, params, olds, s3a, s4),
        !next_is(s4, TokenKind::ColonColon),
        next_is(s4, TokenKind::EqualSign),
    ensures
        define_signature(pos, name, s3, lib) == define_body(
            pos,
            name,
            params,
            olds,
            None,
            seen(popped(s4), s4.tokens[0].0),
            lib,
        ),
{
    if next_is(s3, TokenKind::RightParenthesis) {
        assert(Seq::<ParamView>::empty() =~= params);
        assert(Seq::<(Seq<char>, Types)>::empty() =~= olds);
    }
}

/// Whether the token kind `k` writes an infix operator of any level.
pub open spec fn writes_operator(k: TokenKind) -> bool {
    ||| k is Star
    ||| k is Slash
    ||| k is PercentSign
    ||| k is Plus
    ||| k is Minus
    ||| k is Or
    ||| k is And
    ||| k is EqualSign
    ||| k is ExclamationEqualSign
    ||| k is LeftAngleBracket
    ||| k is LessThanEqualSign
    ||| k is RightAngleBracket
    ||| k is GreaterThanEqualSign
}

/// An operator token between two integers parses to the operation it
/// writes: `*` multiplies, `/` divides, `%` takes the remainder, `+` adds,
/// `-` subtracts, `or` and `and` join, and `=`, `!=`, `<`, `<=`, `>`, `>=`
/// compare for equality, inequality, less, less or equal, greater, greater
/// or equal. The node stands at the operator's position, with the first
/// integer on the left, and the tokens after the second integer are left.
pub proof fn lemma_operators_parse_to_their_operations(
    s: ParserState,
    lib: Seq<FunctionView>,
    a: i64,
    b: i64,
    p1: usize,
    p2: usize,
    p3: usize,
    k: TokenKind,
    rest: Seq<(usize, TokenKind)>,
)
    requires
        s.tokens == seq![(p1, TokenKind::IntegerLiteral(a)), (p2, k), (p3, TokenKind::IntegerLiteral(b))] + rest,
        writes_operator(k),
        rest.len() == 0 || !writes_operator(rest[0].1),
    ensures
        ({
            let x = Box::new(node(ExprKindView::Int(a), p1));
            let y = Box::new(node(ExprKindView::Int(b), p3));
            let parsed = match k {
                TokenKind::Star => ExprKindView::InfixBinary(BinaryOperation::Multiply, x, y),
                TokenKind::Slash => ExprKindView::InfixBinary(BinaryOperation::Divide, x, y),
                TokenKind::PercentSign => ExprKindView::InfixBinary(BinaryOperation::Modulus, x, y),
                TokenKind::Plus => ExprKindView::InfixBinary(BinaryOperation::Plus, x, y),
                TokenKind::Minus => ExprKindView::InfixBinary(BinaryOperation::Minus, x, y),
                TokenKind::Or => ExprKindView::InfixBinary(BinaryOperation::Or, x, y),
                TokenKind::And => ExprKindView::InfixBinary(BinaryOperation::And, x, y),
                TokenKind::EqualSign => ExprKindView::BinaryEquality(BinaryEqualityOperation::Equals, x, y),
                TokenKind::ExclamationEqualSign => ExprKindView::BinaryEquality(BinaryEqualityOperation::NotEquals, x, y),
                TokenKind::LeftAngleBracket => ExprKindView::BinaryEquality(BinaryEqualityOperation::LessThan, x, y),
                TokenKind::LessThanEqualSign => ExprKindView::BinaryEquality(BinaryEqualityOperation::LessThanEqual, x, y),
                TokenKind::RightAngleBracket => ExprKindView::BinaryEquality(BinaryEqualityOperation::GreaterThan, x, y),
                _ => ExprKindView::BinaryEquality(BinaryEqualityOperation::GreaterThanEqual, x, y),
            };
            &&& expression(s, lib).0 == Ok::<ExprView, ErrorView>(node(parsed, p2))
            &&& expression(s, lib).1.tokens == rest
        }),
{
    let x = node(ExprKindView::Int(a), p1);
    let y = node(ExprKindView::Int(b), p3);
    let s1 = seen(popped(s), p1);
    let s2 = seen(popped(s1), p2);
    let s3 = seen(popped(s2), p3);
    assert(popped(s).tokens =~= seq![(p2, k), (p3, TokenKind::IntegerLiteral(b))] + rest);
    assert(popped(s1).tokens =~= seq![(p3, TokenKind::IntegerLiteral(b))] + rest);
    assert(popped(s2).tokens =~= rest);
    assert(primary(s, lib) == (Ok::<ExprView, ErrorView>(x), s1));
    assert(primary(s2, lib) == (Ok::<ExprView, ErrorView>(y), s3));
    assert(more_factors(y, s3, lib) == (Ok::<ExprView, ErrorView>(y), s3));
    assert(more_terms(y, s3, lib) == (Ok::<ExprView, ErrorView>(y), s3));
    assert(factor(s2, lib) == (Ok::<ExprView, ErrorView>(y), s3));
    assert(term(s2, lib) == (Ok::<ExprView, ErrorView>(y), s3));
    if factor_operator(k) is Some {
        let n = node(ExprKindView::InfixBinary(factor_operator(k)->0, Box::new(x), Box::new(y)), p2);
        assert(more_factors(n, s3, lib) == (Ok::<ExprView, ErrorView>(n), s3));
        assert(more_factors(x, s1, lib) == (Ok::<ExprView, ErrorView>(n), s3));
        assert(factor(s, lib) == (Ok::<ExprView, ErrorView>(n), s3));
        assert(more_terms(n, s3, lib) == (Ok::<ExprView, ErrorView>(n), s3));
        assert(term(s, lib) == (Ok::<ExprView, ErrorView>(n), s3));
        assert(more_equality(n, s3, lib) == (Ok::<ExprView, ErrorView>(n), s3));
        assert(equality(s, lib) == (Ok::<ExprView, ErrorView>(n), s3));
    } else if term_operator(k) is Some {
        let n = node(ExprKindView::InfixBinary(term_operator(k)->0, Box::new(x), Box::new(y)), p2);
        assert(more_factors(x, s1, lib) == (Ok::<ExprView, ErrorView>(x), s1));
        assert(factor(s, lib) == (Ok::<ExprView, ErrorView>(x), s1));
        assert(more_terms(n, s3, lib) == (Ok::<ExprView, ErrorView>(n), s3));
        assert(more_terms(x, s1, lib) == (Ok::<ExprView, ErrorView>(n), s3));
        assert(term(s, lib) == (Ok::<ExprView, ErrorView>(n), s3));
        assert(more_equality(n, s3, lib) == (Ok::<ExprView, ErrorView>(n), s3));
        assert(equality(s, lib) == (Ok::<ExprView, ErrorView>(n), s3));
    } else {
        let n = node(ExprKindView::BinaryEquality(equality_operator(k)->0, Box::new(x), Box::new(y)), p2);
        assert(more_factors(x, s1, lib) == (Ok::<ExprView, ErrorView>(x), s1));
        assert(factor(s, lib) == (Ok::<ExprView, ErrorView>(x), s1));
        assert(more_terms(x, s1, lib) == (Ok::<ExprView, ErrorView>(x), s1));
        assert(term(s, lib) == (Ok::<ExprView, ErrorView>(x), s1));
        assert(more_equality(n, s3, lib) == (Ok::<ExprView, ErrorView>(n), s3));
        assert(more_equality(x, s1, lib) == (Ok::<ExprView, ErrorView>(n), s3));
        assert(equality(s, lib) == (Ok::<ExprView, ErrorView>(n), s3));
    }
}

} // verus!
