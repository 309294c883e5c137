//! The front end that reads function signatures: a lexer that keeps every
//! piece of the text, whitespace included, as a token, and a parser of
//! signatures over tokens tagged with snippets.

pub mod ast;
pub mod lexical_analysis;
pub mod parser;
