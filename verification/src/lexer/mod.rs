//! The lexer that tags each token with a snippet of source, and its tokens.

pub mod lexer;
pub mod token;
