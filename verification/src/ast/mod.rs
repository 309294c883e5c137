//! The expressions of the Envious language, as the recursive-descent parser
//! builds them.

pub mod expression;
pub mod expression_kind;
