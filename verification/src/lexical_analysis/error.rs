//! The errors the byte lexer reports.

use vstd::prelude::*;

use crate::lexical_analysis::span::Span;

verus! {

/// What went wrong while lexing, and where.
#[derive(Debug, Clone, Copy, PartialEq, Eq, Structural)]
pub enum Error {
    /// An integer literal does not fit in 64 bits.
    IntegerOverflow(Span),
    /// The decimals of a float literal do not fit in 64 bits.
    FloatOverflow(Span),
    /// A string literal runs to the end of the input.
    UnterminatedString(Span),
    /// A character no token starts with.
    UnrecognizedCharacter(Span),
}

} // verus!
