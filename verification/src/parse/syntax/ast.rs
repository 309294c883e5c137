//! A program as a list of function signatures, each part with the span it
//! was read from.

use vstd::prelude::*;

use crate::parse::syntax::expression::{Identifier, Type};
use crate::source::span::{Span, Spanned};

verus! {

/// A parsed program: its functions, in order.
#[derive(Debug)]
pub struct Program {
    pub functions: Vec<Function>,
}

/// The signature of a function: `define name(parameters) =`.
#[derive(Debug)]
pub struct Function {
    pub define_keyword: Span,
    pub name: Identifier,
    pub left_parenthesis: Span,
    pub parameters: Vec<Parameter>,
    pub right_parenthesis: Span,
    pub equal_sign: Span,
}

/// A parameter: `name: Type`, after a comma unless it is the first.
#[derive(Debug, Clone, Copy)]
pub struct Parameter {
    pub leading_comma: Option<Span>,
    pub name: Identifier,
    pub colon: Span,
    pub ty: Spanned<Type>,
}

/// A function signature as a mathematical value.
pub struct FunctionSignature {
    pub define_keyword: Span,
    pub name: Identifier,
    pub left_parenthesis: Span,
    pub parameters: Seq<Parameter>,
    pub right_parenthesis: Span,
    pub equal_sign: Span,
}

impl View for Function {
    type V = FunctionSignature;

    open spec fn view(&self) -> FunctionSignature {
        FunctionSignature {
            define_keyword: self.define_keyword,
            name: self.name,
            left_parenthesis: self.left_parenthesis,
            parameters: self.parameters@,
            right_parenthesis: self.right_parenthesis,
            equal_sign: self.equal_sign,
        }
    }
}

/// The signatures of the functions of a program.
pub open spec fn program_view(p: Program) -> Seq<FunctionSignature> {
    p.functions@.map_values(|f: Function| f@)
}

} // verus!
