//! The type checker: the type of each expression, or the error that keeps
//! it from having one.

use vstd::prelude::*;

use crate::ast::expression::{lemma_views_of, views_of, ExprKindView, ExprView, Expression};
use crate::ast::expression_kind::{BinaryOperation, ExpressionKind};
use crate::errors::error::{Error, ErrorView};
use crate::errors::error_kind::{ErrorKind, ErrorKindView};
use crate::semantic_analyzer::function::{find_function, views, Function, FunctionTable, FunctionView, StandardLibrary};
use crate::semantic_analyzer::types::Types;

verus! {

/// The error of kind `kind` at `pos`.
pub open spec fn error_at(kind: ErrorKindView, pos: usize) -> ErrorView {
    ErrorView { kind, position: Some(pos) }
}

/// How an operation is named in messages.
pub open spec fn operation_name(op: BinaryOperation) -> Seq<char> {
    match op {
        BinaryOperation::Plus => "Plus"@,
        BinaryOperation::Minus => "Minus"@,
        BinaryOperation::Multiply => "Multiply"@,
        BinaryOperation::Divide => "Divide"@,
        BinaryOperation::Modulus => "Modulus"@,
        BinaryOperation::Or => "Or"@,
        BinaryOperation::And => "And"@,
    }
}

/// The type of applying `op` to operands of types `left` and `right`, if
/// the operation allows them: arithmetic on numbers gives an `Int` when both
/// are `Int`s and a `Float` otherwise; `Plus` with a `String` on either side
/// gives a `String`, as does `Multiply` of a `String` and an `Int`.
/// `Modulus`, `Or` and `And` allow no operands.
pub open spec fn binary_result(op: BinaryOperation, left: Types, right: Types) -> Option<Types> {
    let numeric = match (left, right) {
        (Types::Int, Types::Int) => Some(Types::Int),
        (Types::Int, Types::Float) => Some(Types::Float),
        (Types::Float, Types::Int) => Some(Types::Float),
        (Types::Float, Types::Float) => Some(Types::Float),
        _ => None,
    };
    match op {
        BinaryOperation::Plus => if numeric is Some {
            numeric
        } else if right == Types::String || left == Types::String {
            Some(Types::String)
        } else {
            None
        },
        BinaryOperation::Minus | BinaryOperation::Divide => numeric,
        BinaryOperation::Multiply => if numeric is Some {
            numeric
        } else if (left == Types::Int && right == Types::String) || (left == Types::String && right == Types::Int) {
            Some(Types::String)
        } else {
            None
        },
        _ => None,
    }
}

/// The type of an infix operation whose operands have the types `lt` and
/// `rt`: each operand must have a type, and the operation must allow them.
pub open spec fn infix_type(
    op: BinaryOperation,
    lt: Option<Types>,
    rt: Option<Types>,
    left_pos: usize,
    right_pos: usize,
    pos: usize,
) -> Result<Option<Types>, ErrorView> {
    match (lt, rt) {
        (None, _) => Err(error_at(ErrorKindView::Expected("An Expression"@), left_pos)),
        (_, None) => Err(error_at(ErrorKindView::Expected("An Expression"@), right_pos)),
        (Some(a), Some(b)) => match binary_result(op, a, b) {
            Some(t) => Ok(Some(t)),
            None => Err(error_at(ErrorKindView::UnsupportedOperation(operation_name(op), seq![a.name(), b.name()]), pos)),
        },
    }
}

/// The type of a sign applied to an operand of type `t`: only numbers take
/// one, and keep their type.
pub open spec fn unary_type(t: Option<Types>, pos: usize) -> Result<Option<Types>, ErrorView> {
    match t {
        Some(Types::Int) => Ok(Some(Types::Int)),
        Some(Types::Float) => Ok(Some(Types::Float)),
        Some(t) => Err(error_at(ErrorKindView::TypeMismatch("An Int Or A Float"@, t.name()), pos)),
        None => Err(error_at(ErrorKindView::Expected("An Int Or A Float"@), pos)),
    }
}

/// The type of a binding declared of type `defined` whose value has the
/// type `actual`: the binding itself has none.
pub open spec fn let_type(defined: Types, actual: Option<Types>, pos: usize) -> Result<Option<Types>, ErrorView> {
    match actual {
        None => Err(error_at(ErrorKindView::Expected(defined.name()), pos)),
        Some(actual) => if defined == Types::Any || actual == defined {
            Ok(None)
        } else {
            Err(error_at(ErrorKindView::TypeMismatch(defined.name(), actual.name()), pos))
        },
    }
}

/// The type of a definition declared to return `return_type` whose body
/// has the type `returned`.
pub open spec fn define_type(return_type: Types, returned: Option<Types>, pos: usize) -> Result<Option<Types>, ErrorView> {
    match returned {
        Some(returned) => if return_type == returned {
            Ok(Some(returned))
        } else {
            Err(error_at(ErrorKindView::TypeMismatch(return_type.name(), returned.name()), pos))
        },
        None => if return_type == Types::Void {
            Ok(None)
        } else {
            Err(error_at(ErrorKindView::TypeMismatch(return_type.name(), "A Void"@), pos))
        },
    }
}

/// The type of expression `e` given the user-defined functions `user` and the
/// library functions `lib`, or the first error found.
pub open spec fn check_spec(user: Seq<FunctionView>, lib: Seq<FunctionView>, e: ExprView) -> Result<Option<Types>, ErrorView>
    decreases e, 0int,
{
    match e.kind {
        ExprKindView::Int(_) => Ok(Some(Types::Int)),
        ExprKindView::Float { .. } => Ok(Some(Types::Float)),
        ExprKindView::Boolean(_) => Ok(Some(Types::Boolean)),
        ExprKindView::String(_) => Ok(Some(Types::String)),
        ExprKindView::Identifier(_, t) => Ok(t),
        ExprKindView::InfixBinary(op, left, right) => match check_spec(user, lib, *left) {
            Err(err) => Err(err),
            Ok(lt) => match check_spec(user, lib, *right) {
                Err(err) => Err(err),
                Ok(rt) => infix_type(op, lt, rt, left.pos, right.pos, e.pos),
            },
        },
        ExprKindView::Unary(_, sub) => match check_spec(user, lib, *sub) {
            Err(err) => Err(err),
            Ok(t) => unary_type(t, sub.pos),
        },
        ExprKindView::BinaryEquality(_, left, right) => match check_spec(user, lib, *left) {
            Err(err) => Err(err),
            Ok(None) => Err(error_at(ErrorKindView::Expected("An Expression"@), left.pos)),
            Ok(Some(_)) => match check_spec(user, lib, *right) {
                Err(err) => Err(err),
                Ok(None) => Err(error_at(ErrorKindView::Expected("An Expression"@), right.pos)),
                Ok(Some(_)) => Ok(Some(Types::Boolean)),
            },
        },
        ExprKindView::Parenthesized(inner) => check_spec(user, lib, *inner),
        ExprKindView::Let(_, defined, value) => match value {
            None => Ok(None),
            Some(expr) => match check_spec(user, lib, *expr) {
                Err(err) => Err(err),
                Ok(actual) => let_type(defined, actual, expr.pos),
            },
        },
        ExprKindView::FunctionCall(name, params) => {
            let function = match find_function(user, name) {
                Some(i) => Some(user[i]),
                None => match find_function(lib, name) {
                    Some(i) => Some(lib[i]),
                    None => None,
                },
            };
            match function {
                None => Err(error_at(ErrorKindView::UnknownFunction, e.pos)),
                Some(f) => if f.number_of_args != params.len() {
                    Err(error_at(ErrorKindView::WrongNumberOfParameters, e.pos))
                } else {
                    match check_args(user, lib, f.parameter_types, params, 0) {
                        Err(err) => Err(err),
                        Ok(()) => Ok(if f.return_type == Types::Void { None } else { Some(f.return_type) }),
                    }
                },
            }
        },
        ExprKindView::Block(exprs) => check_block(user, lib, exprs, 0),
        ExprKindView::If(condition, then_branch, else_branch) => match check_spec(user, lib, *condition) {
            Err(err) => Err(err),
            Ok(None) => Err(error_at(ErrorKindView::TypeMismatch("A Boolean"@, "A Void"@), condition.pos)),
            Ok(Some(t)) => if t != Types::Boolean {
                Err(error_at(ErrorKindView::TypeMismatch("A Boolean"@, t.name()), condition.pos))
            } else {
                match check_spec(user, lib, *then_branch) {
                    Err(err) => Err(err),
                    Ok(then_type) => match else_branch {
                        None => Ok(then_type),
                        Some(other) => match check_spec(user, lib, *other) {
                            Err(err) => Err(err),
                            Ok(_) => Ok(then_type),
                        },
                    },
                }
            },
        },
        ExprKindView::Define(_, _, body, return_type) => match check_spec(user, lib, *body) {
            Err(err) => Err(err),
            Ok(returned) => define_type(return_type, returned, body.pos),
        },
    }
}

/// Checks the expressions of a block from index `i` on, in order: the first
/// error found, or else the type of the last expression (none for an empty
/// block).
pub open spec fn check_block(user: Seq<FunctionView>, lib: Seq<FunctionView>, exprs: Seq<ExprView>, i: int) -> Result<Option<Types>, ErrorView>
    decreases exprs, exprs.len() - i,
{
    if i < 0 || i >= exprs.len() {
        Ok(None)
    } else {
        match check_spec(user, lib, exprs[i]) {
            Err(err) => Err(err),
            Ok(t) => if i == exprs.len() - 1 {
                Ok(t)
            } else {
                check_block(user, lib, exprs, i + 1)
            },
        }
    }
}

/// Checks the arguments `params` from index `i` on against the parameter
/// types `types` (pairing them while both last): an argument of no type
/// counts as `Void`; an `Any` parameter takes any argument but a `Void` one;
/// any other parameter takes only its own type.
pub open spec fn check_args(
    user: Seq<FunctionView>,
    lib: Seq<FunctionView>,
    types: Seq<Types>,
    params: Seq<ExprView>,
    i: int,
) -> Result<(), ErrorView>
    decreases params, params.len() - i,
{
    if i < 0 || i >= types.len() || i >= params.len() {
        Ok(())
    } else {
        match check_spec(user, lib, params[i]) {
            Err(err) => Err(err),
            Ok(t) => {
                let pt = match t {
                    Some(t) => t,
                    None => Types::Void,
                };
                if types[i] == Types::Any && pt != Types::Void {
                    check_args(user, lib, types, params, i + 1)
                } else if pt != types[i] {
                    Err(error_at(ErrorKindView::TypeMismatch(types[i].name(), pt.name()), params[i].pos))
                } else {
                    check_args(user, lib, types, params, i + 1)
                }
            },
        }
    }
}

/// The view of a checking result.
pub open spec fn result_view(r: Result<Option<Types>, Error>) -> Result<Option<Types>, ErrorView> {
    match r {
        Ok(t) => Ok(t),
        Err(e) => Err(e@),
    }
}

/// Checks the types of expressions against the functions the program
/// defines.
pub struct TypeChecker {
    pub user_defined_functions: FunctionTable,
}

impl TypeChecker {
    /// A checker that knows no user-defined functions.
    pub fn new() -> (res: TypeChecker)
        ensures
            res.user_defined_functions.entries().len() == 0,
    {
        TypeChecker { user_defined_functions: FunctionTable::new() }
    }

    /// Checks each expression in turn; the first error found, if any.
    pub fn perform_type_checking(&mut self, expressions: &Vec<Expression>, standard_library: &StandardLibrary) -> (res: Result<(), Error>)
        ensures
            final(self).user_defined_functions == old(self).user_defined_functions,
            match res {
                Ok(()) => forall|i: int| 0 <= i < expressions@.len() ==> check_spec(
                    old(self).user_defined_functions.entries(),
                    views(standard_library.functions@),
                    #[trigger] expressions@[i]@,
                ) is Ok,
                Err(e) => exists|i: int| 0 <= i < expressions@.len()
                    && (forall|j: int| 0 <= j < i ==> check_spec(
                        old(self).user_defined_functions.entries(),
                        views(standard_library.functions@),
                        #[trigger] expressions@[j]@,
                    ) is Ok)
                    && check_spec(
                        old(self).user_defined_functions.entries(),
                        views(standard_library.functions@),
                        expressions@[i]@,
                    ) == Err::<Option<Types>, ErrorView>(e@),
            },
    {
        let mut i: usize = 0;
        while i < expressions.len()
            invariant
                i <= expressions@.len(),
                forall|j: int| 0 <= j < i ==> check_spec(
                    self.user_defined_functions.entries(),
                    views(standard_library.functions@),
                    #[trigger] expressions@[j]@,
                ) is Ok,
            decreases expressions@.len() - i,
        {
            match self.check_types(&expressions[i], standard_library) {
                Ok(_) => {},
                Err(e) => return Err(e),
            }
            i = i + 1;
        }
        Ok(())
    }

    /// The type of `expression`, or the first error found in it.
    #[verifier::rlimit(50)]
    pub fn check_types(&self, expression: &Expression, standard_library: &StandardLibrary) -> (res: Result<Option<Types>, Error>)
        ensures
            result_view(res) == check_spec(self.user_defined_functions.entries(), views(standard_library.functions@), expression@),
        decreases *expression,
    {
        let ghost user = self.user_defined_functions.entries();
        let ghost lib = views(standard_library.functions@);
        match &expression.kind {
            ExpressionKind::Int(_) => Ok(Some(Types::Int)),
            ExpressionKind::Float { .. } => Ok(Some(Types::Float)),
            ExpressionKind::Boolean(_) => Ok(Some(Types::Boolean)),
            ExpressionKind::String(_) => Ok(Some(Types::String)),
            ExpressionKind::Identifier(_, ident_type) => Ok(*ident_type),
            ExpressionKind::InfixBinaryExpression(operation, left, right) => {
                let lt = match self.check_types(left, standard_library) {
                    Ok(t) => t,
                    Err(e) => return Err(e),
                };
                let rt = match self.check_types(right, standard_library) {
                    Ok(t) => t,
                    Err(e) => return Err(e),
                };
                infix_type_of(*operation, lt, rt, left.pos, right.pos, expression.pos)
            },
            ExpressionKind::UnaryExpression(_, sub_expression) => {
                match self.check_types(sub_expression, standard_library) {
                    Err(e) => Err(e),
                    Ok(t) => unary_type_of(t, sub_expression.pos),
                }
            },
            ExpressionKind::BinaryEqualityExpression(_, left, right) => {
                match self.check_types(left, standard_library) {
                    Err(e) => Err(e),
                    Ok(None) => Err(Error::new(ErrorKind::Expected("An Expression".to_owned()), left.pos)),
                    Ok(Some(_)) => match self.check_types(right, standard_library) {
                        Err(e) => Err(e),
                        Ok(None) => Err(Error::new(ErrorKind::Expected("An Expression".to_owned()), right.pos)),
                        Ok(Some(_)) => Ok(Some(Types::Boolean)),
                    },
                }
            },
            ExpressionKind::ParenthesizedExpression(inner) => self.check_types(inner, standard_library),
            ExpressionKind::LetExpression(_, var_type, value) => match value {
                None => Ok(None),
                Some(expr) => match self.check_types(expr, standard_library) {
                    Err(e) => Err(e),
                    Ok(actual) => let_type_of(*var_type, actual, expr.pos),
                },
            },
            ExpressionKind::FunctionCallExpression(name, parameters) => {
                let function = match self.user_defined_functions.get(name.as_str()) {
                    Some(function) => function,
                    None => match standard_library.get_function(expression.pos, name.as_str()) {
                        Ok(function) => function,
                        Err(e) => return Err(e),
                    },
                };
                proof {
                    assert(decreases_to!(*expression => expression.kind));
                    assert(decreases_to!(expression.kind => *parameters));
                    lemma_views_of(parameters@);
                }
                self.check_call(function, parameters, expression.pos, standard_library)
            },
            ExpressionKind::BlockExpression(expressions) => {
                proof {
                    assert(decreases_to!(*expression => expression.kind));
                    assert(decreases_to!(expression.kind => *expressions));
                    lemma_views_of(expressions@);
                }
                self.check_block(expressions, standard_library)
            },
            ExpressionKind::IfExpression(condition, expr, else_branch) => {
                match self.check_types(condition, standard_library) {
                    Err(e) => Err(e),
                    Ok(None) => Err(Error::new(
                        ErrorKind::TypeMismatch(Types::Boolean.into_string(), Types::Void.into_string()),
                        condition.pos,
                    )),
                    Ok(Some(condition_type)) => if condition_type != Types::Boolean {
                        Err(Error::new(
                            ErrorKind::TypeMismatch(Types::Boolean.into_string(), condition_type.into_string()),
                            condition.pos,
                        ))
                    } else {
                        match self.check_types(expr, standard_library) {
                            Err(e) => Err(e),
                            Ok(then_type) => match else_branch {
                                None => Ok(then_type),
                                Some(other) => match self.check_types(other, standard_library) {
                                    Err(e) => Err(e),
                                    Ok(_) => Ok(then_type),
                                },
                            },
                        }
                    },
                }
            },
            ExpressionKind::DefineExpression(_, _, body, return_type) => {
                match self.check_types(body, standard_library) {
                    Err(e) => Err(e),
                    Ok(returned) => define_type_of(*return_type, returned, body.pos),
                }
            },
        }
    }

    /// Checks the expressions of a block in order (see `check_block`).
    fn check_block(&self, expressions: &Vec<Expression>, standard_library: &StandardLibrary) -> (res: Result<Option<Types>, Error>)
        ensures
            result_view(res) == check_block(
                self.user_defined_functions.entries(),
                views(standard_library.functions@),
                views_of(expressions@),
                0,
            ),
        decreases *expressions,
    {
        let ghost user = self.user_defined_functions.entries();
        let ghost lib = views(standard_library.functions@);
        proof {
            lemma_views_of(expressions@);
        }
        let n = expressions.len();
        let mut last: Option<Types> = None;
        let mut i: usize = 0;
        while i < n
            invariant
                n == expressions@.len(),
                i <= n,
                user == self.user_defined_functions.entries(),
                lib == views(standard_library.functions@),
                views_of(expressions@).len() == n,
                check_block(user, lib, views_of(expressions@), 0) == (if i == n {
                    if n == 0 { Ok(None) } else { Ok(last) }
                } else {
                    check_block(user, lib, views_of(expressions@), i as int)
                }),
            decreases n - i,
        {
            proof {
                lemma_views_of(expressions@);
                assert(decreases_to!(*expressions => expressions@));
                assert(decreases_to!(expressions@ => expressions@[i as int]));
            }
            match self.check_types(&expressions[i], standard_library) {
                Err(e) => return Err(e),
                Ok(t) => {
                    last = t;
                },
            }
            i = i + 1;
        }
        if n == 0 {
            Ok(None)
        } else {
            Ok(last)
        }
    }

    /// Checks a call of `function` with the arguments `parameters`, made at
    /// `pos`: the count first, then each argument in turn.
    fn check_call(
        &self,
        function: &Function,
        parameters: &Vec<Expression>,
        pos: usize,
        standard_library: &StandardLibrary,
    ) -> (res: Result<Option<Types>, Error>)
        ensures
            result_view(res) == (if function.number_of_args != parameters@.len() {
                Err(error_at(ErrorKindView::WrongNumberOfParameters, pos))
            } else {
                match check_args(
                    self.user_defined_functions.entries(),
                    views(standard_library.functions@),
                    function.parameter_types@,
                    views_of(parameters@),
                    0,
                ) {
                    Err(err) => Err(err),
                    Ok(()) => Ok(
                        if function.return_type == Types::Void {
                            None
                        } else {
                            Some(function.return_type)
                        },
                    ),
                }
            }),
        decreases *parameters,
    {
        let ghost user = self.user_defined_functions.entries();
        let ghost lib = views(standard_library.functions@);
        proof {
            lemma_views_of(parameters@);
        }
        if function.number_of_args != parameters.len() {
            return Err(Error::new(ErrorKind::WrongNumberOfParameters, pos));
        }
        let mut i: usize = 0;
        while i < function.parameter_types.len() && i < parameters.len()
            invariant
                i <= parameters@.len(),
                function.number_of_args == parameters@.len(),
                user == self.user_defined_functions.entries(),
                lib == views(standard_library.functions@),
                check_args(user, lib, function.parameter_types@, views_of(parameters@), 0) == check_args(
                    user,
                    lib,
                    function.parameter_types@,
                    views_of(parameters@),
                    i as int,
                ),
            decreases parameters@.len() - i,
        {
            let expected_type = function.parameter_types[i];
            let parameter = &parameters[i];
            proof {
                lemma_views_of(parameters@);
                assert(decreases_to!(*parameters => parameters@));
                assert(decreases_to!(parameters@ => parameters@[i as int]));
            }
            let parameter_type = match self.check_types(parameter, standard_library) {
                Ok(Some(t)) => t,
                Ok(None) => Types::Void,
                Err(e) => return Err(e),
            };
            if expected_type == Types::Any && parameter_type != Types::Void {
                i = i + 1;
                continue;
            }
            if parameter_type != expected_type {
                return Err(Error::new(
                    ErrorKind::TypeMismatch(expected_type.into_string(), parameter_type.into_string()),
                    parameter.pos,
                ));
            }
            i = i + 1;
        }
        match function.return_type {
            Types::Void => Ok(None),
            return_type => Ok(Some(return_type)),
        }
    }
}

/// The type of an infix operation on operands of the types `lt` and `rt`.
fn infix_type_of(
    op: BinaryOperation,
    lt: Option<Types>,
    rt: Option<Types>,
    left_pos: usize,
    right_pos: usize,
    pos: usize,
) -> (res: Result<Option<Types>, Error>)
    ensures
        result_view(res) == infix_type(op, lt, rt, left_pos, right_pos, pos),
{
    match (lt, rt) {
        (None, _) => Err(Error::new(ErrorKind::Expected("An Expression".to_owned()), left_pos)),
        (_, None) => Err(Error::new(ErrorKind::Expected("An Expression".to_owned()), right_pos)),
        (Some(left_type), Some(right_type)) => match allowed_binary_types(op, left_type, right_type) {
            Some(t) => Ok(Some(t)),
            None => {
                let mut operands: Vec<String> = Vec::new();
                operands.push(left_type.into_string());
                operands.push(right_type.into_string());
                let res = Err(Error::new(ErrorKind::UnsupportedOperation(operation_name_text(op), operands), pos));
                proof {
                    assert(operands@.map_values(|a: String| a@) =~= seq![left_type.name(), right_type.name()]);
                }
                res
            },
        },
    }
}

/// The type of a sign applied to an operand of type `t`.
fn unary_type_of(t: Option<Types>, pos: usize) -> (res: Result<Option<Types>, Error>)
    ensures
        result_view(res) == unary_type(t, pos),
{
    match t {
        Some(Types::Int) => Ok(Some(Types::Int)),
        Some(Types::Float) => Ok(Some(Types::Float)),
        Some(evaluated_type) => Err(Error::new(
            ErrorKind::TypeMismatch("An Int Or A Float".to_owned(), evaluated_type.into_string()),
            pos,
        )),
        None => Err(Error::new(ErrorKind::Expected("An Int Or A Float".to_owned()), pos)),
    }
}

/// The type of a binding declared of type `var_type` whose value has the
/// type `actual`.
fn let_type_of(var_type: Types, actual: Option<Types>, pos: usize) -> (res: Result<Option<Types>, Error>)
    ensures
        result_view(res) == let_type(var_type, actual, pos),
{
    match actual {
        None => Err(Error::new(ErrorKind::Expected(var_type.into_string()), pos)),
        Some(actual_type) => if var_type == Types::Any || actual_type == var_type {
            Ok(None)
        } else {
            Err(Error::new(ErrorKind::TypeMismatch(var_type.into_string(), actual_type.into_string()), pos))
        },
    }
}

/// The type of a definition declared to return `return_type` whose body has
/// the type `returned`.
fn define_type_of(return_type: Types, returned: Option<Types>, pos: usize) -> (res: Result<Option<Types>, Error>)
    ensures
        result_view(res) == define_type(return_type, returned, pos),
{
    match returned {
        Some(returned_type) => if return_type == returned_type {
            Ok(Some(returned_type))
        } else {
            Err(Error::new(ErrorKind::TypeMismatch(return_type.into_string(), returned_type.into_string()), pos))
        },
        None => if return_type == Types::Void {
            Ok(None)
        } else {
            Err(Error::new(ErrorKind::TypeMismatch(return_type.into_string(), Types::Void.into_string()), pos))
        },
    }
}

/// The type of applying `op` to operands of the given types, by the rules
/// of each operation, if they allow them.
fn allowed_binary_types(op: BinaryOperation, left: Types, right: Types) -> (res: Option<Types>)
    ensures
        res == binary_result(op, left, right),
{
    let numeric = match (left, right) {
        (Types::Int, Types::Int) => Some(Types::Int),
        (Types::Int, Types::Float) => Some(Types::Float),
        (Types::Float, Types::Int) => Some(Types::Float),
        (Types::Float, Types::Float) => Some(Types::Float),
        _ => None,
    };
    match op {
        BinaryOperation::Plus => if numeric.is_some() {
            numeric
        } else if right == Types::String || left == Types::String {
            Some(Types::String)
        } else {
            None
        },
        BinaryOperation::Minus | BinaryOperation::Divide => numeric,
        BinaryOperation::Multiply => if numeric.is_some() {
            numeric
        } else if (left == Types::Int && right == Types::String) || (left == Types::String && right == Types::Int) {
            Some(Types::String)
        } else {
            None
        },
        _ => None,
    }
}

/// How an operation is named in messages.
fn operation_name_text(op: BinaryOperation) -> (res: String)
    ensures
        res@ == operation_name(op),
{
    match op {
        BinaryOperation::Plus => "Plus".to_owned(),
        BinaryOperation::Minus => "Minus".to_owned(),
        BinaryOperation::Multiply => "Multiply".to_owned(),
        BinaryOperation::Divide => "Divide".to_owned(),
        BinaryOperation::Modulus => "Modulus".to_owned(),
        BinaryOperation::Or => "Or".to_owned(),
        BinaryOperation::And => "And".to_owned(),
    }
}

/// Whether values of type `t` are numbers.
pub open spec fn is_number(t: Types) -> bool {
    t == Types::Int || t == Types::Float
}

/// The message name of the operation `op`.
pub open spec fn named(op: BinaryOperation) -> Seq<char> {
    if op is Plus {
        "Plus"@
    } else if op is Minus {
        "Minus"@
    } else if op is Multiply {
        "Multiply"@
    } else if op is Divide {
        "Divide"@
    } else if op is Modulus {
        "Modulus"@
    } else if op is Or {
        "Or"@
    } else {
        "And"@
    }
}

/// How the operand types of an infix operation decide its type. Let the
/// operands of `e` type-check to values of types `lt` and `rt`.
/// - Any of `+`, `-`, `*`, `/` on two numbers gives an `Int` when both are
///   `Int`s and a `Float` when either is a `Float`.
/// - `-` and `/` take numbers only.
/// - `+` also joins anything with a `String` into a `String`.
/// - `*` also repeats a `String` by an `Int` (either way round) into a
///   `String`.
/// - `%`, `or` and `and` take no operands.
///
/// Every other pair is refused at the operation's position with the
/// error that the operation, named, does not take the two operand types,
/// left first.
pub proof fn lemma_infix_operand_types(
    user: Seq<FunctionView>,
    lib: Seq<FunctionView>,
    e: ExprView,
    op: BinaryOperation,
    left: Box<ExprView>,
    right: Box<ExprView>,
    lt: Types,
    rt: Types,
)
    requires
        e.kind == ExprKindView::InfixBinary(op, left, right),
        check_spec(user, lib, *left) == Ok::<Option<Types>, ErrorView>(Some(lt)),
        check_spec(user, lib, *right) == Ok::<Option<Types>, ErrorView>(Some(rt)),
    ensures
        ({
            let refused = Err::<Option<Types>, ErrorView>(
                error_at(ErrorKindView::UnsupportedOperation(named(op), seq![lt.name(), rt.name()]), e.pos),
            );
            let arithmetic = op == BinaryOperation::Plus || op == BinaryOperation::Minus || op
                == BinaryOperation::Multiply || op == BinaryOperation::Divide;
            &&& (arithmetic && is_number(lt) && is_number(rt)) ==> check_spec(user, lib, e) == Ok::<
                Option<Types>,
                ErrorView,
            >(Some(if lt == Types::Int && rt == Types::Int { Types::Int } else { Types::Float }))
            &&& ((op == BinaryOperation::Minus || op == BinaryOperation::Divide) && !(is_number(lt) && is_number(rt)))
                ==> check_spec(user, lib, e) == refused
            &&& (op == BinaryOperation::Plus && !(is_number(lt) && is_number(rt))) ==> check_spec(user, lib, e) == if lt
                == Types::String || rt == Types::String {
                Ok::<Option<Types>, ErrorView>(Some(Types::String))
            } else {
                refused
            }
            &&& (op == BinaryOperation::Multiply && !(is_number(lt) && is_number(rt))) ==> check_spec(user, lib, e)
                == if (lt == Types::String && rt == Types::Int) || (lt == Types::Int && rt == Types::String) {
                Ok::<Option<Types>, ErrorView>(Some(Types::String))
            } else {
                refused
            }
            &&& !arithmetic ==> check_spec(user, lib, e) == refused
        }),
{
}

/// Signs, comparisons and bindings, by the types of their parts.
/// - A sign keeps the type of a number operand and refuses any other
///   type, at the operand's position.
/// - A comparison of two values is a `Boolean`, whatever their types.
/// - A binding of a value of type `t` is accepted, and has no value,
///   exactly when it was declared `Any` or `t`.
pub proof fn lemma_signs_comparisons_and_bindings(
    user: Seq<FunctionView>,
    lib: Seq<FunctionView>,
    e: ExprView,
    a: Box<ExprView>,
    b: Box<ExprView>,
    ta: Types,
    tb: Types,
    declared: Types,
)
    requires
        check_spec(user, lib, *a) == Ok::<Option<Types>, ErrorView>(Some(ta)),
        check_spec(user, lib, *b) == Ok::<Option<Types>, ErrorView>(Some(tb)),
    ensures
        e.kind matches ExprKindView::Unary(_, sub) && sub == a ==> check_spec(user, lib, e) == if is_number(ta) {
            Ok::<Option<Types>, ErrorView>(Some(ta))
        } else {
            Err(error_at(ErrorKindView::TypeMismatch("An Int Or A Float"@, ta.name()), a.pos))
        },
        e.kind matches ExprKindView::BinaryEquality(_, l, r) && l == a && r == b ==> check_spec(user, lib, e) == Ok::<
            Option<Types>,
            ErrorView,
        >(Some(Types::Boolean)),
        e.kind matches ExprKindView::Let(_, d, value) && d == declared && value == Some(a) ==> check_spec(user, lib, e) == if declared
            == Types::Any || declared == ta {
            Ok::<Option<Types>, ErrorView>(None)
        } else {
            Err(error_at(ErrorKindView::TypeMismatch(declared.name(), ta.name()), a.pos))
        },
{
}

} // verus!
