//! The byte lexer of the Envious language: tokens with line and column
//! spans, literal values read as they are lexed.

pub mod error;
pub mod lexer;
pub mod span;
pub mod token;
