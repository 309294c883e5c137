//! Diagnostics built up from messages, snippets and footers.

pub mod diagnostic;
pub mod diagnostics;
pub mod error;
pub mod error_handler;
pub mod handler;
