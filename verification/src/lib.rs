//! A verified front end for the Envious programming language: source
//! bookkeeping, lexers, parsers, a type checker, a code generator for the
//! Dark virtual machine, and the diagnostics that accompany them.

pub mod text;
pub mod source;
pub mod syntax;
pub mod diagnostic;
pub mod unit;
pub mod lexer;
pub mod errors;
pub mod lexical_analysis;
pub mod ast;
pub mod semantic_analyzer;
pub mod compiler;
pub mod parser;
pub mod context;
pub mod interner;
pub mod parse;
pub mod error;
pub mod cli;
pub mod repl_helpers;
pub mod repl;
