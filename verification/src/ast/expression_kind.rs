//! The kinds of expressions and the operations they apply.

use vstd::prelude::*;

use crate::ast::expression::Expression;
use crate::semantic_analyzer::types::Types;

verus! {

/// The kinds of expressions.
#[derive(Debug)]
pub enum ExpressionKind {
    Int(i64),
    /// A float literal, held as the two integers it is written with.
    Float { whole: i64, decimals: i64 },
    Boolean(bool),
    String(String),
    Identifier(String, Option<Types>),
    ParenthesizedExpression(Box<Expression>),
    InfixBinaryExpression(BinaryOperation, Box<Expression>, Box<Expression>),
    UnaryExpression(UnaryOperation, Box<Expression>),
    BinaryEqualityExpression(BinaryEqualityOperation, Box<Expression>, Box<Expression>),
    LetExpression(String, Types, Option<Box<Expression>>),
    FunctionCallExpression(String, Vec<Expression>),
    BlockExpression(Vec<Expression>),
    IfExpression(Box<Expression>, Box<Expression>, Option<Box<Expression>>),
    DefineExpression(String, Vec<Parameter>, Box<Expression>, Types),
}

/// Arithmetic and logical operations on two operands.
#[derive(Debug, Clone, Copy, PartialEq, Eq, Structural)]
pub enum BinaryOperation {
    Plus,
    Minus,
    Multiply,
    Divide,
    Modulus,
    Or,
    And,
}

/// Operations on one operand.
#[derive(Debug, Clone, Copy, PartialEq, Eq, Structural)]
pub enum UnaryOperation {
    Positive,
    Negative,
    Not,
}

/// Comparisons.
#[derive(Debug, Clone, Copy, PartialEq, Eq, Structural)]
pub enum BinaryEqualityOperation {
    Equals,
    NotEquals,
    LessThan,
    LessThanEqual,
    GreaterThan,
    GreaterThanEqual,
}

/// A parameter of a function definition: where it is, its name and type.
#[derive(Debug)]
pub struct Parameter {
    pub pos: usize,
    pub name: String,
    pub expected_type: Types,
}

impl Parameter {
    /// The parameter `name` of type `expected_type` at `pos`.
    pub fn new(pos: usize, name: String, expected_type: Types) -> (res: Parameter)
        ensures
            res.pos == pos,
            res.name == name,
            res.expected_type == expected_type,
    {
        Parameter { pos, name, expected_type }
    }
}

} // verus!
