//! Types, names and expressions as the parser reads them.

use vstd::prelude::*;

use crate::context::symbol_interner::SymbolId;
use crate::parse::syntax::ptr::P;
use crate::source::span::Spanned;

verus! {

/// A type written in a signature.
#[derive(Debug, Clone, Copy, PartialEq, Eq, Structural)]
pub enum Type {
    Int,
    Boolean,
}

/// A name: the id it is interned under, and where it was written.
pub type Identifier = Spanned<SymbolId>;

/// An expression.
#[derive(Debug)]
pub enum ExpressionKind {
    Int(i64),
    Boolean(bool),
    Identifier(Identifier),
    Binary(Binary),
}

/// An operation applied to two expressions.
#[derive(Debug)]
pub struct Binary {
    pub left: P<Spanned<ExpressionKind>>,
    pub operation: Spanned<BinaryOperation>,
    pub right: P<Spanned<ExpressionKind>>,
}

/// The operations of two operands.
#[derive(Debug, Clone, Copy, PartialEq, Eq, Structural)]
pub enum BinaryOperation {
    Plus,
    Minus,
    Multiply,
    Divide,
}

} // verus!
