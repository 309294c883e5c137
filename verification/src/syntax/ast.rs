//! A program as the signature parser reads it: members, each function with
//! the snippets of its keyword, name, parentheses, parameters and `=`.

use vstd::prelude::*;

use crate::context::symbol_interner::SymbolId;
use crate::source::snippet::Snippet;

verus! {

/// A name: the symbol it is interned under and the snippet it was read from.
#[derive(Debug, Clone, Copy, PartialEq, Eq, Structural)]
pub struct SnippetedSymbol {
    pub snippet: Snippet,
    pub symbol: SymbolId,
}

impl SnippetedSymbol {
    /// The name `symbol` read from `snippet`.
    pub fn new(snippet: Snippet, symbol: SymbolId) -> (res: Self)
        ensures
            res == (SnippetedSymbol { snippet, symbol }),
    {
        Self { snippet, symbol }
    }
}

/// A parsed program: its members, in order.
#[derive(Debug)]
pub struct Program {
    pub members: Vec<Member>,
}

impl Program {
    /// The program of `members`.
    pub fn new(members: Vec<Member>) -> (res: Self)
        ensures
            res.members@ == members@,
    {
        Self { members }
    }
}

/// A member of a program.
#[derive(Debug)]
pub enum Member {
    GlobalStatement,
    Function(Function),
}

/// The signature of a function: `define name(parameters) =`.
#[derive(Debug)]
pub struct Function {
    pub define_keyword: Snippet,
    pub identifier: SnippetedSymbol,
    pub left_parenthesis: Snippet,
    pub parameters: Vec<Parameter>,
    pub right_parenthesis: Snippet,
    pub equal_sign: Snippet,
}

impl Function {
    /// The signature made of the given parts.
    pub fn new(
        define_keyword: Snippet,
        identifier: SnippetedSymbol,
        left_parenthesis: Snippet,
        parameters: Vec<Parameter>,
        right_parenthesis: Snippet,
        equal_sign: Snippet,
    ) -> (res: Self)
        ensures
            res@ == (FunctionView {
                define_keyword,
                identifier,
                left_parenthesis,
                parameters: parameters@,
                right_parenthesis,
                equal_sign,
            }),
    {
        Self { define_keyword, identifier, left_parenthesis, parameters, right_parenthesis, equal_sign }
    }
}

/// A parameter: its name.
#[derive(Debug, Clone, Copy, PartialEq, Eq, Structural)]
pub struct Parameter {
    pub name: SnippetedSymbol,
}

impl Parameter {
    /// The parameter named `name`.
    pub fn new(name: SnippetedSymbol) -> (res: Self)
        ensures
            res == (Parameter { name }),
    {
        Self { name }
    }
}

/// A signature as a mathematical value.
pub struct FunctionView {
    pub define_keyword: Snippet,
    pub identifier: SnippetedSymbol,
    pub left_parenthesis: Snippet,
    pub parameters: Seq<Parameter>,
    pub right_parenthesis: Snippet,
    pub equal_sign: Snippet,
}

impl View for Function {
    type V = FunctionView;

    open spec fn view(&self) -> FunctionView {
        FunctionView {
            define_keyword: self.define_keyword,
            identifier: self.identifier,
            left_parenthesis: self.left_parenthesis,
            parameters: self.parameters@,
            right_parenthesis: self.right_parenthesis,
            equal_sign: self.equal_sign,
        }
    }
}

/// A member as a mathematical value.
pub enum MemberView {
    GlobalStatement,
    Function(FunctionView),
}

impl View for Member {
    type V = MemberView;

    open spec fn view(&self) -> MemberView {
        match self {
            Member::GlobalStatement => MemberView::GlobalStatement,
            Member::Function(f) => MemberView::Function(f@),
        }
    }
}

/// The members of a program as mathematical values.
pub open spec fn member_views(members: Seq<Member>) -> Seq<MemberView> {
    members.map_values(|m: Member| m@)
}

} // verus!
