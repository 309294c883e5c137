//! The parser of the newest front end: a token stream over a source, and
//! a parser that reports what it did not expect and goes on.

pub mod token_kind;
pub mod token_stream;
pub mod syntax;
pub mod parser;
