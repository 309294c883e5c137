//! The syntax tree the parser builds.

pub mod ast;
pub mod expression;
pub mod ptr;
