//! The recursive-descent parser of Envious programs: it turns tokens into
//! expressions, remembering the types of identifiers and checking bindings
//! and definitions against the type checker as it goes.

pub mod grammar;
pub mod identifiers;

use std::collections::VecDeque;

use vstd::prelude::*;

use crate::ast::expression::{param_views, lemma_views_of_empty, lemma_views_of_push, views_of, ExprKindView, ExprView, Expression, ParamView};
use crate::ast::expression_kind::{BinaryEqualityOperation, BinaryOperation, ExpressionKind, Parameter, UnaryOperation};
use crate::errors::error::{Error, ErrorView};
use crate::errors::error_kind::{ErrorKind, ErrorKindView};
use crate::semantic_analyzer::type_checker::error_at;
use crate::lexical_analysis::token::TokenKind;
use crate::parser::grammar::{
    param_types, next_is, node, popped, seen, arguments, call_arguments, define_body, define_signature, bind_parameters, block_expression, block_items, define_expression, equality, equality_operator, expression,
    factor, factor_operator, function_call, if_expression, let_expression, more_arguments, more_equality, more_factors,
    more_parameters, more_terms, parameter, parameters, primary, program, restore, same_variant, signed, term,
    term_operator, type_annotation, unbind_parameters, ParserState,
};
use crate::parser::identifiers::IdentifierTable;
use crate::semantic_analyzer::function::{name_index, replaced, views, Function, FunctionView, StandardLibrary};
use crate::semantic_analyzer::type_checker::TypeChecker;
use crate::semantic_analyzer::types::Types;

verus! {

/// The view of a parsed expression, or of the error met.
pub open spec fn parsed(r: Result<Expression, Error>) -> Result<ExprView, ErrorView> {
    match r {
        Ok(e) => Ok(e@),
        Err(e) => Err(e@),
    }
}

/// The view of parsed expressions, or of the error met.
pub open spec fn parsed_all(r: Result<Vec<Expression>, Error>) -> Result<Seq<ExprView>, ErrorView> {
    match r {
        Ok(v) => Ok(views_of(v@)),
        Err(e) => Err(e@),
    }
}

/// The names and types of saved identifier entries, as mathematical values.
pub open spec fn saved_views(v: Seq<(String, Types)>) -> Seq<(Seq<char>, Types)> {
    v.map_values(|p: (String, Types)| (p.0@, p.1))
}

/// The tokens of `toks` before index `n` that are not whitespace.
pub open spec fn without_whitespace(toks: Seq<(usize, TokenKind)>, n: int) -> Seq<(usize, TokenKind)>
    decreases n,
{
    if n <= 0 {
        Seq::empty()
    } else if toks[n - 1].1 is Whitespace {
        without_whitespace(toks, n - 1)
    } else {
        without_whitespace(toks, n - 1).push(toks[n - 1])
    }
}

/// Whether two token kinds are the same variant, for the kinds the parser
/// looks ahead for.
fn same_kind(a: &TokenKind, b: &TokenKind) -> (res: bool)
    ensures
        res == same_variant(*a, *b),
{
    match (a, b) {
        (TokenKind::Colon, TokenKind::Colon) => true,
        (TokenKind::ColonEqualSign, TokenKind::ColonEqualSign) => true,
        (TokenKind::ColonColon, TokenKind::ColonColon) => true,
        (TokenKind::Comma, TokenKind::Comma) => true,
        (TokenKind::EqualSign, TokenKind::EqualSign) => true,
        (TokenKind::LeftParenthesis, TokenKind::LeftParenthesis) => true,
        (TokenKind::RightParenthesis, TokenKind::RightParenthesis) => true,
        (TokenKind::RightCurlyBrace, TokenKind::RightCurlyBrace) => true,
        _ => false,
    }
}

fn equality_operator_of(k: &TokenKind) -> (res: Option<BinaryEqualityOperation>)
    ensures
        res == equality_operator(*k),
{
    match k {
        TokenKind::EqualSign => Some(BinaryEqualityOperation::Equals),
        TokenKind::ExclamationEqualSign => Some(BinaryEqualityOperation::NotEquals),
        TokenKind::LeftAngleBracket => Some(BinaryEqualityOperation::LessThan),
        TokenKind::LessThanEqualSign => Some(BinaryEqualityOperation::LessThanEqual),
        TokenKind::RightAngleBracket => Some(BinaryEqualityOperation::GreaterThan),
        TokenKind::GreaterThanEqualSign => Some(BinaryEqualityOperation::GreaterThanEqual),
        _ => None,
    }
}

fn term_operator_of(k: &TokenKind) -> (res: Option<BinaryOperation>)
    ensures
        res == term_operator(*k),
{
    match k {
        TokenKind::Plus => Some(BinaryOperation::Plus),
        TokenKind::Minus => Some(BinaryOperation::Minus),
        TokenKind::Or => Some(BinaryOperation::Or),
        TokenKind::And => Some(BinaryOperation::And),
        _ => None,
    }
}

fn factor_operator_of(k: &TokenKind) -> (res: Option<BinaryOperation>)
    ensures
        res == factor_operator(*k),
{
    match k {
        TokenKind::Star => Some(BinaryOperation::Multiply),
        TokenKind::Slash => Some(BinaryOperation::Divide),
        TokenKind::PercentSign => Some(BinaryOperation::Modulus),
        _ => None,
    }
}

/// The tokens that are not whitespace, in order.
fn filter_whitespace(tokens: Vec<(usize, TokenKind)>) -> (res: VecDeque<(usize, TokenKind)>)
    ensures
        res@ == without_whitespace(tokens@, tokens@.len() as int),
{
    let ghost all = tokens@;
    let n = tokens.len();
    let mut rest = tokens;
    let mut res: VecDeque<(usize, TokenKind)> = VecDeque::new();
    let mut i: usize = 0;
    proof {
        assert(all.len() <= usize::MAX);
    }
    while rest.len() > 0
        invariant
            all.len() <= usize::MAX,
            i + rest@.len() == all.len(),
            rest@ == all.subrange(i as int, all.len() as int),
            res@ == without_whitespace(all, i as int),
        decreases rest@.len(),
    {
        let token = rest.remove(0);
        proof {
            assert(token == all[i as int]);
            assert(rest@ =~= all.subrange(i + 1, all.len() as int));
        }
        if !matches!(token.1, TokenKind::Whitespace) {
            res.push_back(token);
        }
        i = i + 1;
    }
    res
}

/// The declared types of `parameters`, in order.
fn parameter_types_of(parameters: &Vec<Parameter>) -> (res: Vec<Types>)
    ensures
        res@ == param_types(param_views(parameters@)),
{
    let ghost pv = param_views(parameters@);
    let mut parameter_types: Vec<Types> = Vec::new();
    let mut k: usize = 0;
    while k < parameters.len()
        invariant
            k <= parameters@.len(),
            parameter_types@ == param_types(pv).take(k as int),
            pv == param_views(parameters@),
        decreases parameters@.len() - k,
    {
        parameter_types.push(parameters[k].expected_type);
        proof {
            assert(parameter_types@ =~= param_types(pv).take(k + 1));
        }
        k = k + 1;
    }
    proof {
        assert(parameter_types@ =~= param_types(pv));
    }
    parameter_types
}

/// A parser over a list of tokens.
#[derive(Debug)]
pub struct Parser {
    last_position: usize,
    tokens: VecDeque<(usize, TokenKind)>,
    identifier_mapping: IdentifierTable,
}

impl Parser {
    /// The parser's state, with `fns` as the functions defined so far.
    pub closed spec fn state(&self, fns: Seq<FunctionView>) -> ParserState {
        ParserState { last: self.last_position, tokens: self.tokens@, ids: self.identifier_mapping@, fns }
    }

    /// The parser's state beside the type checker `tc`.
    pub open spec fn at(&self, tc: TypeChecker) -> ParserState {
        self.state(tc.user_defined_functions.entries())
    }

    /// A parser of the tokens of `tokens` that are not whitespace, its last
    /// position that of the first token (or zero), knowing no identifier.
    pub fn new(tokens: Vec<(usize, TokenKind)>) -> (res: Parser)
        ensures
            res.state(Seq::empty()) == (ParserState {
                last: if tokens@.len() > 0 { tokens@[0].0 } else { 0 },
                tokens: without_whitespace(tokens@, tokens@.len() as int),
                ids: Map::empty(),
                fns: Seq::empty(),
            }),
    {
        let last_position = if tokens.len() > 0 { tokens[0].0 } else { 0 };
        Parser { last_position, tokens: filter_whitespace(tokens), identifier_mapping: IdentifierTable::new() }
    }

    /// Starts over on the tokens of `tokens` that are not whitespace; the
    /// types of identifiers are kept.
    pub fn with_tokens(&mut self, tokens: Vec<(usize, TokenKind)>)
        ensures
            forall|fns: Seq<FunctionView>| #[trigger] final(self).state(fns) == (ParserState {
                last: if tokens@.len() > 0 { tokens@[0].0 } else { 0 },
                tokens: without_whitespace(tokens@, tokens@.len() as int),
                ..old(self).state(fns)
            }),
    {
        self.last_position = if tokens.len() > 0 { tokens[0].0 } else { 0 };
        self.tokens = filter_whitespace(tokens);
    }

    /// Whether the next token is of the kind `k`.
    fn peek_is(&self, k: TokenKind) -> (res: bool)
        ensures
            res == (self.tokens@.len() > 0 && same_variant(self.tokens@[0].1, k)),
    {
        self.tokens.len() > 0 && same_kind(&self.tokens[0].1, &k)
    }

    /// Parses the tokens up to the last; the expressions, or the first
    /// error met.
    pub fn parse(&mut self, standard_library: &StandardLibrary, type_checker: &mut TypeChecker) -> (res: Result<Vec<Expression>, Error>)
        ensures
            (parsed_all(res), final(self).at(*final(type_checker))) == program(
                old(self).at(*old(type_checker)),
                Seq::empty(),
                views(standard_library.functions@),
            ),
    {
        let ghost lib = views(standard_library.functions@);
        let ghost start = self.at(*type_checker);
        let mut expressions: Vec<Expression> = Vec::new();
        proof {
            lemma_views_of_empty(expressions@);
        }
        while self.tokens.len() > 0
            invariant
                lib == views(standard_library.functions@),
                start == old(self).at(*old(type_checker)),
                program(start, Seq::empty(), lib) == program(self.at(*type_checker), views_of(expressions@), lib),
            decreases self.tokens@.len(),
        {
            let ghost before = self.at(*type_checker);
            let e = match self.parse_expression(standard_library, type_checker) {
                Ok(e) => e,
                Err(err) => {
                    proof {
                        assert(before.tokens.len() > 0);
                        assert(expression(before, lib) == (Err::<ExprView, ErrorView>(err@), self.at(*type_checker)));
                        assert(program(before, views_of(expressions@), lib) == (Err::<Seq<ExprView>, ErrorView>(err@), self.at(*type_checker)));
                    }
                    return Err(err);
                },
            };
            let ghost earlier = expressions@;
            let ghost pushed = e;
            expressions.push(e);
            proof {
                lemma_views_of_push(earlier, pushed);
            }
        }
        Ok(expressions)
    }

    /// One expression.
    fn parse_expression(&mut self, standard_library: &StandardLibrary, type_checker: &mut TypeChecker) -> (res: Result<Expression, Error>)
        ensures
            (parsed(res), final(self).at(*final(type_checker))) == expression(old(self).at(*old(type_checker)), views(standard_library.functions@)),
            final(self).tokens@.len() <= old(self).tokens@.len(),
            res is Ok ==> final(self).tokens@.len() < old(self).tokens@.len(),
        decreases old(self).tokens@.len(), 20int,
    {
        if self.tokens.len() == 0 {
            return Err(Error::new(ErrorKind::Expected("An Expression".to_owned()), self.last_position));
        }
        let pos = self.tokens[0].0;
        match &self.tokens[0].1 {
            TokenKind::Let => {
                self.last_position = pos;
                self.parse_let_expression(standard_library, type_checker)
            },
            TokenKind::LeftCurlyBrace => self.parse_block_expression(standard_library, type_checker),
            TokenKind::If => {
                self.last_position = pos;
                self.parse_if_expression(standard_library, type_checker)
            },
            TokenKind::Define => {
                self.last_position = pos;
                self.parse_define_expression(standard_library, type_checker)
            },
            _ => self.parse_equality_expression(standard_library, type_checker),
        }
    }

    /// A binding, its `let` first.
    fn parse_let_expression(&mut self, standard_library: &StandardLibrary, type_checker: &mut TypeChecker) -> (res: Result<Expression, Error>)
        ensures
            (parsed(res), final(self).at(*final(type_checker))) == let_expression(old(self).at(*old(type_checker)), views(standard_library.functions@)),
            final(self).tokens@.len() <= old(self).tokens@.len(),
            res is Ok ==> final(self).tokens@.len() < old(self).tokens@.len(),
        decreases old(self).tokens@.len(), 19int,
    {
        let ghost fns = type_checker.user_defined_functions.entries();
        let pos = match self.tokens.pop_front() {
            Some((p, _)) => p,
            None => return Err(Error::new(ErrorKind::Expected("An Expression".to_owned()), self.last_position)),
        };
        match self.tokens.pop_front() {
            Some((ident_pos, TokenKind::Identifier(name))) => {
                let mut var_type: Option<Types> = None;
                if self.peek_is(TokenKind::Colon) {
                    self.tokens.pop_front();
                    match self.parse_type_annotation(Ghost(fns)) {
                        Ok(t) => var_type = Some(t),
                        Err(e) => return Err(e),
                    }
                }
                let declared = match var_type {
                    Some(t) => t,
                    None => Types::Any,
                };
                if let Some(new_type) = var_type {
                    if let Some(defined_type) = self.identifier_mapping.get(name.as_str()) {
                        if defined_type != Types::Any && new_type != defined_type {
                            return Err(Error::new(
                                ErrorKind::TypeMismatch(defined_type.into_string(), new_type.into_string()),
                                ident_pos,
                            ));
                        }
                    }
                }
                if self.peek_is(TokenKind::ColonEqualSign) {
                    self.tokens.pop_front();
                    let value = match self.parse_expression(standard_library, type_checker) {
                        Ok(v) => v,
                        Err(e) => return Err(e),
                    };
                    let value_type = match type_checker.check_types(&value, standard_library) {
                        Ok(t) => t,
                        Err(e) => return Err(e),
                    };
                    if !self.identifier_mapping.contains_key(name.as_str()) {
                        match value_type {
                            None => return Err(Error::new(ErrorKind::Expected("A Non-Void Type".to_owned()), value.pos)),
                            Some(t) => {
                                self.identifier_mapping.insert(name.clone(), t);
                            },
                        }
                    } else {
                        let defined = match self.identifier_mapping.get(name.as_str()) {
                            Some(d) => d,
                            None => Types::Any,
                        };
                        match value_type {
                            Some(t) => if defined != t {
                                return Err(Error::new(
                                    ErrorKind::TypeMismatch(defined.into_string(), t.into_string()),
                                    value.pos,
                                ));
                            },
                            None => if defined != Types::Void {
                                return Err(Error::new(ErrorKind::Expected(defined.into_string()), value.pos));
                            },
                        }
                    }
                    Ok(Expression::new(ExpressionKind::LetExpression(name, declared, Some(Box::new(value))), pos))
                } else {
                    if !self.identifier_mapping.contains_key(name.as_str()) {
                        self.identifier_mapping.insert(name.clone(), declared);
                    }
                    Ok(Expression::new(ExpressionKind::LetExpression(name, declared, None), pos))
                }
            },
            Some((p, kind)) => Err(Error::new(ErrorKind::TypeMismatch("An Identifier".to_owned(), kind.get_name()), p)),
            None => Err(Error::new(ErrorKind::Expected("An Identifier".to_owned()), self.last_position)),
        }
    }

    /// A block, its `{` first.
    fn parse_block_expression(&mut self, standard_library: &StandardLibrary, type_checker: &mut TypeChecker) -> (res: Result<Expression, Error>)
        ensures
            (parsed(res), final(self).at(*final(type_checker))) == block_expression(old(self).at(*old(type_checker)), views(standard_library.functions@)),
            final(self).tokens@.len() <= old(self).tokens@.len(),
            res is Ok ==> final(self).tokens@.len() < old(self).tokens@.len(),
        decreases old(self).tokens@.len(), 19int,
    {
        let ghost lib = views(standard_library.functions@);
        let pos = match self.tokens.pop_front() {
            Some((p, _)) => p,
            None => return Err(Error::new(ErrorKind::Expected("An Expression".to_owned()), self.last_position)),
        };
        self.last_position = pos;
        let ghost start = self.at(*type_checker);
        proof {
            let s0 = old(self).at(*old(type_checker));
            assert(start == seen(popped(s0), pos));
            assert(block_expression(s0, lib) == (match block_items(start, Seq::empty(), lib) {
                (Ok(exprs), s2) => (Ok(node(ExprKindView::Block(exprs), pos)), s2),
                (Err(e), s2) => (Err(e), s2),
            }));
        }
        let mut expressions: Vec<Expression> = Vec::new();
        proof {
            lemma_views_of_empty(expressions@);
        }
        loop
            invariant
                lib == views(standard_library.functions@),
                self.tokens@.len() < old(self).tokens@.len(),
                block_expression(old(self).at(*old(type_checker)), lib) == (match block_items(start, Seq::empty(), lib) {
                    (Ok(exprs), s2) => (Ok(node(ExprKindView::Block(exprs), pos)), s2),
                    (Err(e), s2) => (Err(e), s2),
                }),
                block_items(start, Seq::empty(), lib) == block_items(self.at(*type_checker), views_of(expressions@), lib),
            decreases self.tokens@.len(),
        {
            if self.tokens.len() == 0 {
                return Err(Error::new(ErrorKind::Expected("A Right Curly Brace".to_owned()), self.last_position));
            }
            if self.peek_is(TokenKind::RightCurlyBrace) {
                self.tokens.pop_front();
                return Ok(Expression::new(ExpressionKind::BlockExpression(expressions), pos));
            }
            let e = match self.parse_expression(standard_library, type_checker) {
                Ok(e) => e,
                Err(err) => return Err(err),
            };
            let ghost earlier = expressions@;
            let ghost pushed = e;
            expressions.push(e);
            proof {
                lemma_views_of_push(earlier, pushed);
            }
        }
    }

    /// A conditional, its `if` first.
    fn parse_if_expression(&mut self, standard_library: &StandardLibrary, type_checker: &mut TypeChecker) -> (res: Result<Expression, Error>)
        ensures
            (parsed(res), final(self).at(*final(type_checker))) == if_expression(old(self).at(*old(type_checker)), views(standard_library.functions@)),
            final(self).tokens@.len() <= old(self).tokens@.len(),
            res is Ok ==> final(self).tokens@.len() < old(self).tokens@.len(),
        decreases old(self).tokens@.len(), 19int,
    {
        let pos = match self.tokens.pop_front() {
            Some((p, _)) => p,
            None => return Err(Error::new(ErrorKind::Expected("An Expression".to_owned()), self.last_position)),
        };
        let condition = match self.parse_expression(standard_library, type_checker) {
            Ok(e) => e,
            Err(err) => return Err(err),
        };
        let code = match self.parse_expression(standard_library, type_checker) {
            Ok(e) => e,
            Err(err) => return Err(err),
        };
        if !(self.tokens.len() > 0 && matches!(self.tokens[0].1, TokenKind::Else)) {
            return Ok(Expression::new(ExpressionKind::IfExpression(Box::new(condition), Box::new(code), None), pos));
        }
        let else_pos = match self.tokens.pop_front() {
            Some((p, _)) => p,
            None => return Err(Error::new(ErrorKind::Expected("An Expression".to_owned()), self.last_position)),
        };
        self.last_position = else_pos;
        let other = match self.parse_expression(standard_library, type_checker) {
            Ok(e) => e,
            Err(err) => return Err(err),
        };
        Ok(Expression::new(ExpressionKind::IfExpression(Box::new(condition), Box::new(code), Some(Box::new(other))), pos))
    }

    /// One parameter of a definition.
    fn parse_parameter(&mut self, Ghost(fns): Ghost<Seq<FunctionView>>) -> (res: Result<Parameter, Error>)
        ensures
            (match res {
                Ok(p) => Ok(p@),
                Err(e) => Err(e@),
            }, final(self).state(fns)) == parameter(old(self).state(fns)),
            final(self).tokens@.len() <= old(self).tokens@.len(),
            res is Ok ==> final(self).tokens@.len() < old(self).tokens@.len(),
    {
        match self.tokens.pop_front() {
            Some((ident_pos, TokenKind::Identifier(name))) => {
                let mut var_type = Types::Any;
                if self.peek_is(TokenKind::Colon) {
                    self.tokens.pop_front();
                    match self.parse_type_annotation(Ghost(fns)) {
                        Ok(t) => var_type = t,
                        Err(e) => return Err(e),
                    }
                }
                Ok(Parameter::new(ident_pos, name, var_type))
            },
            Some((p, kind)) => Err(Error::new(ErrorKind::TypeMismatch("An Identifier".to_owned(), kind.get_name()), p)),
            None => Err(Error::new(ErrorKind::Expected("An Identifier".to_owned()), self.last_position)),
        }
    }

    /// Parameters separated by commas.
    fn parse_parameters(&mut self, Ghost(fns): Ghost<Seq<FunctionView>>) -> (res: Result<Vec<Parameter>, Error>)
        ensures
            (match res {
                Ok(v) => Ok(param_views(v@)),
                Err(e) => Err(e@),
            }, final(self).state(fns)) == parameters(old(self).state(fns)),
            final(self).tokens@.len() <= old(self).tokens@.len(),
    {
        let first = match self.parse_parameter(Ghost(fns)) {
            Ok(p) => p,
            Err(e) => return Err(e),
        };
        let ghost fv = first@;
        let mut list: Vec<Parameter> = Vec::new();
        list.push(first);
        proof {
            assert(param_views(list@) =~= seq![fv]);
        }
        while self.peek_is(TokenKind::Comma)
            invariant
                self.tokens@.len() <= old(self).tokens@.len(),
                parameters(old(self).state(fns)) == more_parameters(self.state(fns), param_views(list@)),
            decreases self.tokens@.len(),
        {
            self.last_position = self.tokens[0].0;
            self.tokens.pop_front();
            let p = match self.parse_parameter(Ghost(fns)) {
                Ok(p) => p,
                Err(e) => return Err(e),
            };
            let ghost earlier = list@;
            list.push(p);
            proof {
                assert(param_views(list@) =~= param_views(earlier).push(list@.last()@));
            }
        }
        Ok(list)
    }

    /// A definition, its `define` first.
    fn parse_define_expression(&mut self, standard_library: &StandardLibrary, type_checker: &mut TypeChecker) -> (res: Result<Expression, Error>)
        ensures
            (parsed(res), final(self).at(*final(type_checker))) == define_expression(old(self).at(*old(type_checker)), views(standard_library.functions@)),
            final(self).tokens@.len() <= old(self).tokens@.len(),
            res is Ok ==> final(self).tokens@.len() < old(self).tokens@.len(),
        decreases old(self).tokens@.len(), 19int,
    {
        let ghost fns = type_checker.user_defined_functions.entries();
        if self.tokens.pop_front().is_none() {
            return Err(Error::new(ErrorKind::Expected("An Expression".to_owned()), self.last_position));
        }
        let (pos, name) = match self.tokens.pop_front() {
            Some((pos, TokenKind::Identifier(name))) => (pos, name),
            Some((p, kind)) => return Err(Error::new(ErrorKind::TypeMismatch("An Identifier".to_owned(), kind.get_name()), p)),
            None => return Err(Error::new(ErrorKind::Expected("An Identifier".to_owned()), self.last_position)),
        };
        match self.tokens.pop_front() {
            Some((left_pos, TokenKind::LeftParenthesis)) => {
                self.last_position = left_pos;
            },
            Some((p, kind)) => return Err(Error::new(ErrorKind::TypeMismatch("A Left Parenthesis".to_owned(), kind.get_name()), p)),
            None => return Err(Error::new(ErrorKind::Expected("A Left Parenthesis".to_owned()), self.last_position)),
        }
        self.parse_define_signature(pos, name, standard_library, type_checker)
    }

    /// The signature of a definition after its `(`, then its body.
    fn parse_define_signature(
        &mut self,
        pos: usize,
        name: String,
        standard_library: &StandardLibrary,
        type_checker: &mut TypeChecker,
    ) -> (res: Result<Expression, Error>)
        ensures
            (parsed(res), final(self).at(*final(type_checker))) == define_signature(
                pos,
                name@,
                old(self).at(*old(type_checker)),
                views(standard_library.functions@),
            ),
            final(self).tokens@.len() <= old(self).tokens@.len(),
            res is Ok ==> final(self).tokens@.len() < old(self).tokens@.len(),
        decreases old(self).tokens@.len(), 19int,
    {
        let ghost fns = type_checker.user_defined_functions.entries();
        let mut parameters: Vec<Parameter> = Vec::new();
        let mut old_parameter_types: Vec<(String, Types)> = Vec::new();
        if self.peek_is(TokenKind::RightParenthesis) {
            self.last_position = self.tokens[0].0;
            self.tokens.pop_front();
            proof {
                assert(param_views(parameters@) =~= Seq::<ParamView>::empty());
                assert(saved_views(old_parameter_types@) =~= Seq::<(Seq<char>, Types)>::empty());
            }
        } else {
            parameters = match self.parse_parameters(Ghost(fns)) {
                Ok(p) => p,
                Err(e) => return Err(e),
            };
            match self.tokens.pop_front() {
                Some((right_pos, TokenKind::RightParenthesis)) => {
                    self.last_position = right_pos;
                },
                Some((p, kind)) => return Err(Error::new(ErrorKind::TypeMismatch("A Right Parenthesis".to_owned(), kind.get_name()), p)),
                None => return Err(Error::new(ErrorKind::Expected("A Right Parenthesis".to_owned()), self.last_position)),
            }
            let ghost ids0 = self.identifier_mapping@;
            let ghost pv = param_views(parameters@);
            let ghost toks = self.tokens@;
            let ghost last = self.last_position;
            let mut i: usize = 0;
            proof {
                assert(saved_views(old_parameter_types@) =~= Seq::<(Seq<char>, Types)>::empty());
            }
            while i < parameters.len()
                invariant
                    i <= parameters@.len(),
                    pv == param_views(parameters@),
                    self.tokens@ == toks,
                    self.last_position == last,
                    (self.identifier_mapping@, saved_views(old_parameter_types@)) == bind_parameters(ids0, pv, i as int),
                decreases parameters@.len() - i,
            {
                let ghost earlier = old_parameter_types@;
                if let Some(previous) = self.identifier_mapping.insert(parameters[i].name.clone(), parameters[i].expected_type) {
                    old_parameter_types.push((parameters[i].name.clone(), previous));
                }
                proof {
                    assert(saved_views(old_parameter_types@) =~= bind_parameters(ids0, pv, i + 1).1);
                }
                i = i + 1;
            }
        }
        let mut return_type: Option<Types> = None;
        if self.peek_is(TokenKind::ColonColon) {
            self.last_position = self.tokens[0].0;
            self.tokens.pop_front();
            match self.parse_type_annotation(Ghost(fns)) {
                Ok(t) => return_type = Some(t),
                Err(e) => return Err(e),
            }
        }
        match self.tokens.pop_front() {
            Some((equal_pos, TokenKind::EqualSign)) => {
                self.last_position = equal_pos;
            },
            Some((p, kind)) => return Err(Error::new(ErrorKind::TypeMismatch("An Equal Sign".to_owned(), kind.get_name()), p)),
            None => return Err(Error::new(ErrorKind::Expected("An Equal Sign".to_owned()), self.last_position)),
        }
        self.parse_define_body(pos, name, parameters, old_parameter_types, return_type, standard_library, type_checker)
    }

    /// The body of a definition, then the parameters' types taken back and
    /// the function made known.
    #[verifier::rlimit(100)]
    fn parse_define_body(
        &mut self,
        pos: usize,
        name: String,
        parameters: Vec<Parameter>,
        old_parameter_types: Vec<(String, Types)>,
        return_type: Option<Types>,
        standard_library: &StandardLibrary,
        type_checker: &mut TypeChecker,
    ) -> (res: Result<Expression, Error>)
        ensures
            (parsed(res), final(self).at(*final(type_checker))) == define_body(
                pos,
                name@,
                param_views(parameters@),
                saved_views(old_parameter_types@),
                return_type,
                old(self).at(*old(type_checker)),
                views(standard_library.functions@),
            ),
            final(self).tokens@.len() <= old(self).tokens@.len(),
            res is Ok ==> final(self).tokens@.len() < old(self).tokens@.len(),
        decreases old(self).tokens@.len(), 23int,
    {
        let ghost lib = views(standard_library.functions@);
        let ghost s6 = self.at(*type_checker);
        let ghost pv0 = param_views(parameters@);
        let ghost saved0 = saved_views(old_parameter_types@);
        let body = match self.parse_expression(standard_library, type_checker) {
            Ok(e) => e,
            Err(err) => return Err(err),
        };
        let ghost s7 = self.at(*type_checker);
        let ghost bv = body@;
        proof {
            assert(expression(s6, lib) == (Ok::<ExprView, ErrorView>(bv), s7));
        }
        let result_type = match return_type {
            Some(t) => t,
            None => match type_checker.check_types(&body, standard_library) {
                Ok(Some(t)) => t,
                Ok(None) => Types::Void,
                Err(e) => return Err(e),
            },
        };
        let ghost pv = param_views(parameters@);
        let ghost saved = saved_views(old_parameter_types@);
        let ghost fv = FunctionView {
            name: name@,
            number_of_args: pv.len() as usize,
            parameter_types: param_types(pv),
            return_type: result_type,
        };
        let res = self.finish_definition(pos, name, parameters, old_parameter_types, body, result_type, type_checker);
        proof {
            let ids = restore(unbind_parameters(s7.ids, pv, pv.len() as int), saved, saved.len() as int);
            assert(define_body(pos, name@, pv, saved, return_type, s6, lib) == (
                Ok::<ExprView, ErrorView>(node(ExprKindView::Define(name@, pv, Box::new(bv), result_type), pos)),
                ParserState { ids, fns: replaced(s7.fns, name_index(s7.fns, name@), fv), ..s7 },
            ));
        }
        Ok(res)
    }

    /// Takes away the types of the names of `parameters`.
    fn unbind_all(&mut self, parameters: &Vec<Parameter>)
        ensures
            final(self).tokens@ == old(self).tokens@,
            final(self).last_position == old(self).last_position,
            final(self).identifier_mapping@ == unbind_parameters(
                old(self).identifier_mapping@,
                param_views(parameters@),
                parameters@.len() as int,
            ),
    {
        let ghost pv = param_views(parameters@);
        let mut i: usize = 0;
        while i < parameters.len()
            invariant
                i <= parameters@.len(),
                pv == param_views(parameters@),
                self.tokens@ == old(self).tokens@,
                self.last_position == old(self).last_position,
                self.identifier_mapping@ == unbind_parameters(old(self).identifier_mapping@, pv, i as int),
            decreases parameters@.len() - i,
        {
            self.identifier_mapping.remove(parameters[i].name.as_str());
            i = i + 1;
        }
    }

    /// Gives back to each name of `saved`, in order, its type.
    fn restore_all(&mut self, saved: &Vec<(String, Types)>)
        ensures
            final(self).tokens@ == old(self).tokens@,
            final(self).last_position == old(self).last_position,
            final(self).identifier_mapping@ == restore(
                old(self).identifier_mapping@,
                saved_views(saved@),
                saved@.len() as int,
            ),
    {
        let ghost sv = saved_views(saved@);
        let mut j: usize = 0;
        while j < saved.len()
            invariant
                j <= saved@.len(),
                sv == saved_views(saved@),
                self.tokens@ == old(self).tokens@,
                self.last_position == old(self).last_position,
                self.identifier_mapping@ == restore(old(self).identifier_mapping@, sv, j as int),
            decreases saved@.len() - j,
        {
            self.identifier_mapping.insert(saved[j].0.clone(), saved[j].1);
            j = j + 1;
        }
    }

    /// Takes back the types the parameters gave their names, puts back
    /// those they hid, and makes the function known to the type checker;
    /// the definition.
    fn finish_definition(
        &mut self,
        pos: usize,
        name: String,
        parameters: Vec<Parameter>,
        old_parameter_types: Vec<(String, Types)>,
        body: Expression,
        result_type: Types,
        type_checker: &mut TypeChecker,
    ) -> (res: Expression)
        ensures
            res@ == node(ExprKindView::Define(name@, param_views(parameters@), Box::new(body@), result_type), pos),
            final(self).tokens@ == old(self).tokens@,
            final(self).last_position == old(self).last_position,
            final(self).identifier_mapping@ == restore(
                unbind_parameters(old(self).identifier_mapping@, param_views(parameters@), parameters@.len() as int),
                saved_views(old_parameter_types@),
                old_parameter_types@.len() as int,
            ),
            final(type_checker).user_defined_functions.entries() == replaced(
                old(type_checker).user_defined_functions.entries(),
                name_index(old(type_checker).user_defined_functions.entries(), name@),
                FunctionView {
                    name: name@,
                    number_of_args: parameters@.len() as usize,
                    parameter_types: param_types(param_views(parameters@)),
                    return_type: result_type,
                },
            ),
    {
        self.unbind_all(&parameters);
        self.restore_all(&old_parameter_types);
        let parameter_types = parameter_types_of(&parameters);
        let function = Function::new(name.as_str(), parameters.len(), parameter_types, result_type);
        type_checker.user_defined_functions.insert(function);
        Expression::new(ExpressionKind::DefineExpression(name, parameters, Box::new(body), result_type), pos)
    }

    /// A call of `function_name` (the name taken, at `pos`).
    fn parse_function_call_expression(
        &mut self,
        pos: usize,
        function_name: String,
        standard_library: &StandardLibrary,
        type_checker: &mut TypeChecker,
    ) -> (res: Result<Expression, Error>)
        ensures
            (parsed(res), final(self).at(*final(type_checker))) == function_call(
                pos,
                function_name@,
                old(self).at(*old(type_checker)),
                views(standard_library.functions@),
            ),
            final(self).tokens@.len() <= old(self).tokens@.len(),
            res is Ok ==> final(self).tokens@.len() < old(self).tokens@.len(),
        decreases old(self).tokens@.len(), 14int,
    {
        match self.tokens.pop_front() {
            Some((paren_pos, TokenKind::LeftParenthesis)) => {
                self.last_position = paren_pos;
                self.parse_call_arguments(pos, function_name, standard_library, type_checker)
            },
            Some((p, kind)) => Err(Error::new(ErrorKind::TypeMismatch("A Left Parenthesis".to_owned(), kind.get_name()), p)),
            None => Err(Error::new(ErrorKind::Expected("A Left Parenthesis".to_owned()), self.last_position)),
        }
    }

    /// The arguments of a call of `function_name` after its `(`, and its
    /// `)`.
    #[verifier::spinoff_prover]
    #[verifier::rlimit(100)]
    fn parse_call_arguments(
        &mut self,
        pos: usize,
        function_name: String,
        standard_library: &StandardLibrary,
        type_checker: &mut TypeChecker,
    ) -> (res: Result<Expression, Error>)
        ensures
            (parsed(res), final(self).at(*final(type_checker))) == call_arguments(
                pos,
                function_name@,
                old(self).at(*old(type_checker)),
                views(standard_library.functions@),
            ),
            final(self).tokens@.len() <= old(self).tokens@.len(),
            res is Ok ==> final(self).tokens@.len() < old(self).tokens@.len(),
        decreases old(self).tokens@.len(), 22int,
    {
        if self.peek_is(TokenKind::RightParenthesis) {
            self.tokens.pop_front();
            let args: Vec<Expression> = Vec::new();
            proof {
                lemma_views_of_empty(args@);
            }
            return Ok(Expression::new(ExpressionKind::FunctionCallExpression(function_name, args), pos));
        }
        let ghost s0 = self.at(*type_checker);
        let ghost lib = views(standard_library.functions@);
        let value = match self.parse_arguments(standard_library, type_checker) {
            Ok(v) => v,
            Err(e) => return Err(e),
        };
        let ghost s2 = self.at(*type_checker);
        proof {
            assert(arguments(s0, lib) == (Ok::<Seq<ExprView>, ErrorView>(views_of(value@)), s2));
            assert(call_arguments(pos, function_name@, s0, lib) == (if s2.tokens.len() == 0 {
                (Err(error_at(ErrorKindView::Expected("A Right Parenthesis"@), s2.last)), s2)
            } else if next_is(s2, TokenKind::RightParenthesis) {
                (Ok(node(ExprKindView::FunctionCall(function_name@, views_of(value@)), pos)), popped(s2))
            } else {
                (Err(error_at(ErrorKindView::TypeMismatch("A Right Parenthesis"@, s2.tokens[0].1.name()), s2.tokens[0].0)), popped(s2))
            }));
        }
        match self.tokens.pop_front() {
            Some((_, TokenKind::RightParenthesis)) => Ok(
                Expression::new(ExpressionKind::FunctionCallExpression(function_name, value), pos),
            ),
            Some((p, kind)) => Err(Error::new(ErrorKind::TypeMismatch("A Right Parenthesis".to_owned(), kind.get_name()), p)),
            None => Err(Error::new(ErrorKind::Expected("A Right Parenthesis".to_owned()), self.last_position)),
        }
    }

    /// The arguments of a call, separated by commas.
    fn parse_arguments(&mut self, standard_library: &StandardLibrary, type_checker: &mut TypeChecker) -> (res: Result<Vec<Expression>, Error>)
        ensures
            (parsed_all(res), final(self).at(*final(type_checker))) == arguments(old(self).at(*old(type_checker)), views(standard_library.functions@)),
            final(self).tokens@.len() <= old(self).tokens@.len(),
        decreases old(self).tokens@.len(), 21int,
    {
        let ghost lib = views(standard_library.functions@);
        let first = match self.parse_expression(standard_library, type_checker) {
            Ok(e) => e,
            Err(err) => return Err(err),
        };
        let ghost fv = first@;
        let ghost fe = first;
        let mut list: Vec<Expression> = Vec::new();
        list.push(first);
        proof {
            lemma_views_of_push(Seq::empty(), fe);
            assert(Seq::<Expression>::empty().push(fe) =~= list@);
            lemma_views_of_empty(Seq::<Expression>::empty());
            assert(Seq::<ExprView>::empty().push(fv) =~= seq![fv]);
        }
        while self.peek_is(TokenKind::Comma)
            invariant
                lib == views(standard_library.functions@),
                self.tokens@.len() <= old(self).tokens@.len(),
                arguments(old(self).at(*old(type_checker)), lib) == more_arguments(self.at(*type_checker), views_of(list@), lib),
            decreases self.tokens@.len(),
        {
            self.last_position = self.tokens[0].0;
            self.tokens.pop_front();
            let a = match self.parse_expression(standard_library, type_checker) {
                Ok(e) => e,
                Err(err) => return Err(err),
            };
            let ghost earlier = list@;
            let ghost pushed = a;
            list.push(a);
            proof {
                lemma_views_of_push(earlier, pushed);
            }
        }
        Ok(list)
    }

    /// Terms joined by equality operators.
    fn parse_equality_expression(&mut self, standard_library: &StandardLibrary, type_checker: &mut TypeChecker) -> (res: Result<Expression, Error>)
        ensures
            (parsed(res), final(self).at(*final(type_checker))) == equality(old(self).at(*old(type_checker)), views(standard_library.functions@)),
            final(self).tokens@.len() <= old(self).tokens@.len(),
            res is Ok ==> final(self).tokens@.len() < old(self).tokens@.len(),
        decreases old(self).tokens@.len(), 18int,
    {
        let ghost lib = views(standard_library.functions@);
        let mut left = match self.parse_term(standard_library, type_checker) {
            Ok(e) => e,
            Err(err) => return Err(err),
        };
        loop
            invariant
                lib == views(standard_library.functions@),
                self.tokens@.len() < old(self).tokens@.len(),
                equality(old(self).at(*old(type_checker)), lib) == more_equality(left@, self.at(*type_checker), lib),
            decreases self.tokens@.len(),
        {
            if self.tokens.len() == 0 {
                return Ok(left);
            }
            let pos = self.tokens[0].0;
            let operation = match equality_operator_of(&self.tokens[0].1) {
                Some(op) => op,
                None => return Ok(left),
            };
            self.last_position = pos;
            self.tokens.pop_front();
            let right = match self.parse_term(standard_library, type_checker) {
                Ok(e) => e,
                Err(err) => return Err(err),
            };
            left = Expression::new(ExpressionKind::BinaryEqualityExpression(operation, Box::new(left), Box::new(right)), pos);
        }
    }

    /// Factors joined by `+`, `-`, `or` and `and`.
    fn parse_term(&mut self, standard_library: &StandardLibrary, type_checker: &mut TypeChecker) -> (res: Result<Expression, Error>)
        ensures
            (parsed(res), final(self).at(*final(type_checker))) == term(old(self).at(*old(type_checker)), views(standard_library.functions@)),
            final(self).tokens@.len() <= old(self).tokens@.len(),
            res is Ok ==> final(self).tokens@.len() < old(self).tokens@.len(),
        decreases old(self).tokens@.len(), 17int,
    {
        let ghost lib = views(standard_library.functions@);
        let mut left = match self.parse_factor(standard_library, type_checker) {
            Ok(e) => e,
            Err(err) => return Err(err),
        };
        loop
            invariant
                lib == views(standard_library.functions@),
                self.tokens@.len() < old(self).tokens@.len(),
                term(old(self).at(*old(type_checker)), lib) == more_terms(left@, self.at(*type_checker), lib),
            decreases self.tokens@.len(),
        {
            if self.tokens.len() == 0 {
                return Ok(left);
            }
            let pos = self.tokens[0].0;
            let operation = match term_operator_of(&self.tokens[0].1) {
                Some(op) => op,
                None => return Ok(left),
            };
            self.last_position = pos;
            self.tokens.pop_front();
            let right = match self.parse_factor(standard_library, type_checker) {
                Ok(e) => e,
                Err(err) => return Err(err),
            };
            left = Expression::new(ExpressionKind::InfixBinaryExpression(operation, Box::new(left), Box::new(right)), pos);
        }
    }

    /// Primaries joined by `*`, `/` and `%`.
    fn parse_factor(&mut self, standard_library: &StandardLibrary, type_checker: &mut TypeChecker) -> (res: Result<Expression, Error>)
        ensures
            (parsed(res), final(self).at(*final(type_checker))) == factor(old(self).at(*old(type_checker)), views(standard_library.functions@)),
            final(self).tokens@.len() <= old(self).tokens@.len(),
            res is Ok ==> final(self).tokens@.len() < old(self).tokens@.len(),
        decreases old(self).tokens@.len(), 16int,
    {
        let ghost lib = views(standard_library.functions@);
        let mut left = match self.parse_primary(standard_library, type_checker) {
            Ok(e) => e,
            Err(err) => return Err(err),
        };
        loop
            invariant
                lib == views(standard_library.functions@),
                self.tokens@.len() < old(self).tokens@.len(),
                factor(old(self).at(*old(type_checker)), lib) == more_factors(left@, self.at(*type_checker), lib),
            decreases self.tokens@.len(),
        {
            if self.tokens.len() == 0 {
                return Ok(left);
            }
            let pos = self.tokens[0].0;
            let operation = match factor_operator_of(&self.tokens[0].1) {
                Some(op) => op,
                None => return Ok(left),
            };
            self.last_position = pos;
            self.tokens.pop_front();
            let right = match self.parse_primary(standard_library, type_checker) {
                Ok(e) => e,
                Err(err) => return Err(err),
            };
            left = Expression::new(ExpressionKind::InfixBinaryExpression(operation, Box::new(left), Box::new(right)), pos);
        }
    }

    /// The sign `op` (taken, at `pos`) applied to the primary after it.
    fn parse_signed(
        &mut self,
        op: UnaryOperation,
        pos: usize,
        standard_library: &StandardLibrary,
        type_checker: &mut TypeChecker,
    ) -> (res: Result<Expression, Error>)
        ensures
            (parsed(res), final(self).at(*final(type_checker))) == signed(op, pos, old(self).at(*old(type_checker)), views(standard_library.functions@)),
            final(self).tokens@.len() <= old(self).tokens@.len(),
            res is Ok ==> final(self).tokens@.len() < old(self).tokens@.len(),
        decreases old(self).tokens@.len(), 16int,
    {
        let value = match self.parse_primary(standard_library, type_checker) {
            Ok(e) => e,
            Err(err) => return Err(err),
        };
        Ok(Expression::new(ExpressionKind::UnaryExpression(op, Box::new(value)), pos))
    }

    /// A literal, a name, a call, a signed primary or a parenthesized
    /// expression.
    fn parse_primary(&mut self, standard_library: &StandardLibrary, type_checker: &mut TypeChecker) -> (res: Result<Expression, Error>)
        ensures
            (parsed(res), final(self).at(*final(type_checker))) == primary(old(self).at(*old(type_checker)), views(standard_library.functions@)),
            final(self).tokens@.len() <= old(self).tokens@.len(),
            res is Ok ==> final(self).tokens@.len() < old(self).tokens@.len(),
        decreases old(self).tokens@.len(), 15int,
    {
        match self.tokens.pop_front() {
            Some((pos, TokenKind::IntegerLiteral(value))) => {
                self.last_position = pos;
                Ok(Expression::new(ExpressionKind::Int(value), pos))
            },
            Some((pos, TokenKind::FloatLiteral { whole, decimals })) => {
                self.last_position = pos;
                Ok(Expression::new(ExpressionKind::Float { whole, decimals }, pos))
            },
            Some((pos, TokenKind::BooleanLiteral(value))) => {
                self.last_position = pos;
                Ok(Expression::new(ExpressionKind::Boolean(value), pos))
            },
            Some((pos, TokenKind::StringLiteral(value))) => {
                self.last_position = pos;
                Ok(Expression::new(ExpressionKind::String(value), pos))
            },
            Some((pos, TokenKind::Identifier(name))) => {
                if self.peek_is(TokenKind::LeftParenthesis) {
                    self.parse_function_call_expression(pos, name, standard_library, type_checker)
                } else {
                    self.last_position = pos;
                    let ident_type = self.identifier_mapping.get(name.as_str());
                    Ok(Expression::new(ExpressionKind::Identifier(name, ident_type), pos))
                }
            },
            Some((pos, TokenKind::Plus)) => {
                self.last_position = pos;
                self.parse_signed(UnaryOperation::Positive, pos, standard_library, type_checker)
            },
            Some((pos, TokenKind::Minus)) => {
                self.last_position = pos;
                self.parse_signed(UnaryOperation::Negative, pos, standard_library, type_checker)
            },
            Some((pos, TokenKind::Not)) => {
                self.last_position = pos;
                self.parse_signed(UnaryOperation::Not, pos, standard_library, type_checker)
            },
            Some((pos, TokenKind::LeftParenthesis)) => {
                self.last_position = pos;
                let inner = match self.parse_expression(standard_library, type_checker) {
                    Ok(e) => e,
                    Err(err) => return Err(err),
                };
                if self.peek_is(TokenKind::RightParenthesis) {
                    self.last_position = self.tokens[0].0;
                    self.tokens.pop_front();
                    Ok(Expression::new(ExpressionKind::ParenthesizedExpression(Box::new(inner)), pos))
                } else {
                    Err(Error::new(ErrorKind::Expected("A Right Parenthesis".to_owned()), self.last_position))
                }
            },
            Some((pos, kind)) => Err(Error::new(
                ErrorKind::TypeMismatch("An Int, A Float, Or A Left Parenthesis".to_owned(), kind.get_name()),
                pos,
            )),
            None => Err(Error::new(ErrorKind::Expected("An Int, A Float, Or A Left Parenthesis".to_owned()), self.last_position)),
        }
    }

    /// A type named after a colon.
    fn parse_type_annotation(&mut self, Ghost(fns): Ghost<Seq<FunctionView>>) -> (res: Result<Types, Error>)
        ensures
            (match res {
                Ok(t) => Ok(t),
                Err(e) => Err(e@),
            }, final(self).state(fns)) == type_annotation(old(self).state(fns)),
            final(self).tokens@.len() <= old(self).tokens@.len(),
    {
        match self.tokens.pop_front() {
            Some((_, TokenKind::Int)) => Ok(Types::Int),
            Some((_, TokenKind::Float)) => Ok(Types::Float),
            Some((_, TokenKind::Boolean)) => Ok(Types::Boolean),
            Some((_, TokenKind::String)) => Ok(Types::String),
            Some((pos, kind)) => Err(Error::new(ErrorKind::TypeMismatch("A Type".to_owned(), kind.get_name()), pos)),
            None => Err(Error::new(ErrorKind::Expected("A Type".to_owned()), self.last_position)),
        }
    }
}

} // verus!
