//! Types of the language and the checker that assigns them to expressions.

pub mod function;
pub mod type_checker;
pub mod types;
