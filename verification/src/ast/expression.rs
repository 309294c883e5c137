//! An expression and where it starts.

use vstd::prelude::*;

use crate::ast::expression_kind::{BinaryEqualityOperation, BinaryOperation, ExpressionKind, Parameter, UnaryOperation};
use crate::semantic_analyzer::types::Types;

verus! {

/// An expression of some kind, at a position of the input.
#[derive(Debug)]
pub struct Expression {
    pub kind: ExpressionKind,
    pub pos: usize,
}

impl Expression {
    /// The expression `kind` at `pos`.
    pub fn new(kind: ExpressionKind, pos: usize) -> (res: Expression)
        ensures
            res.kind == kind,
            res.pos == pos,
    {
        Expression { kind, pos }
    }
}

/// An expression as a mathematical value: texts as sequences of characters
/// and lists as sequences.
pub struct ExprView {
    pub kind: ExprKindView,
    pub pos: usize,
}

/// The kind of an expression as a mathematical value; the variants follow
/// those of `ExpressionKind`.
pub enum ExprKindView {
    Int(i64),
    Float { whole: i64, decimals: i64 },
    Boolean(bool),
    String(Seq<char>),
    Identifier(Seq<char>, Option<Types>),
    Parenthesized(Box<ExprView>),
    InfixBinary(BinaryOperation, Box<ExprView>, Box<ExprView>),
    Unary(UnaryOperation, Box<ExprView>),
    BinaryEquality(BinaryEqualityOperation, Box<ExprView>, Box<ExprView>),
    Let(Seq<char>, Types, Option<Box<ExprView>>),
    FunctionCall(Seq<char>, Seq<ExprView>),
    Block(Seq<ExprView>),
    If(Box<ExprView>, Box<ExprView>, Option<Box<ExprView>>),
    Define(Seq<char>, Seq<ParamView>, Box<ExprView>, Types),
}

/// A parameter of a definition as a mathematical value.
pub struct ParamView {
    pub pos: usize,
    pub name: Seq<char>,
    pub expected_type: Types,
}

impl View for Parameter {
    type V = ParamView;

    open spec fn view(&self) -> ParamView {
        ParamView { pos: self.pos, name: self.name@, expected_type: self.expected_type }
    }
}

/// The views of parameters.
pub open spec fn param_views(v: Seq<Parameter>) -> Seq<ParamView> {
    v.map_values(|p: Parameter| p@)
}

/// The views of the expressions of `es`, in order.
#[verifier::opaque]
pub open spec fn views_of(es: Seq<Expression>) -> Seq<ExprView>
    decreases es, 1int,
{
    Seq::new(
        es.len(),
        |i: int|
            if 0 <= i < es.len() {
                proof {
                    assert(decreases_to!(es => es[i]));
                }
                expr_view(es[i])
            } else {
                ExprView { kind: ExprKindView::Int(0), pos: 0 }
            },
    )
}

/// The view of `e`.
pub open spec fn expr_view(e: Expression) -> ExprView
    decreases e, 0int,
{
    let kind = match e.kind {
        ExpressionKind::Int(v) => ExprKindView::Int(v),
        ExpressionKind::Float { whole, decimals } => ExprKindView::Float { whole, decimals },
        ExpressionKind::Boolean(b) => ExprKindView::Boolean(b),
        ExpressionKind::String(s) => ExprKindView::String(s@),
        ExpressionKind::Identifier(name, t) => ExprKindView::Identifier(name@, t),
        ExpressionKind::ParenthesizedExpression(inner) => ExprKindView::Parenthesized(Box::new(expr_view(*inner))),
        ExpressionKind::InfixBinaryExpression(op, l, r) => ExprKindView::InfixBinary(
            op,
            Box::new(expr_view(*l)),
            Box::new(expr_view(*r)),
        ),
        ExpressionKind::UnaryExpression(op, sub) => ExprKindView::Unary(op, Box::new(expr_view(*sub))),
        ExpressionKind::BinaryEqualityExpression(op, l, r) => ExprKindView::BinaryEquality(
            op,
            Box::new(expr_view(*l)),
            Box::new(expr_view(*r)),
        ),
        ExpressionKind::LetExpression(name, t, value) => ExprKindView::Let(
            name@,
            t,
            match value {
                Some(v) => Some(Box::new(expr_view(*v))),
                None => None,
            },
        ),
        ExpressionKind::FunctionCallExpression(name, args) => {
            proof {
                assert(decreases_to!(args => args@));
            }
            ExprKindView::FunctionCall(name@, views_of(args@))
        },
        ExpressionKind::BlockExpression(exprs) => {
            proof {
                assert(decreases_to!(exprs => exprs@));
            }
            ExprKindView::Block(views_of(exprs@))
        },
        ExpressionKind::IfExpression(c, t, other) => ExprKindView::If(
            Box::new(expr_view(*c)),
            Box::new(expr_view(*t)),
            match other {
                Some(o) => Some(Box::new(expr_view(*o))),
                None => None,
            },
        ),
        ExpressionKind::DefineExpression(name, params, body, t) => ExprKindView::Define(
            name@,
            param_views(params@),
            Box::new(expr_view(*body)),
            t,
        ),
    };
    ExprView { kind, pos: e.pos }
}

/// The views of a list hold, in order, the view of each expression.
pub proof fn lemma_views_of(es: Seq<Expression>)
    ensures
        views_of(es).len() == es.len(),
        forall|i: int| 0 <= i < es.len() ==> #[trigger] views_of(es)[i] == es[i]@,
{
    reveal(views_of);
}

/// The views of a list with one more expression.
pub proof fn lemma_views_of_push(es: Seq<Expression>, e: Expression)
    ensures
        views_of(es.push(e)) == views_of(es).push(e@),
{
    lemma_views_of(es);
    lemma_views_of(es.push(e));
    assert(views_of(es.push(e)) =~= views_of(es).push(e@));
}

/// The views of no expressions.
pub proof fn lemma_views_of_empty(es: Seq<Expression>)
    requires
        es.len() == 0,
    ensures
        views_of(es) == Seq::<ExprView>::empty(),
{
    lemma_views_of(es);
    assert(views_of(es) =~= Seq::<ExprView>::empty());
}

impl View for Expression {
    type V = ExprView;

    open spec fn view(&self) -> ExprView {
        expr_view(*self)
    }
}

} // verus!
