//! Source texts, positions inside them, and the errors that point at them.

pub mod error;
pub mod report;
pub mod snippet;
#[allow(clippy::module_inception)]
pub mod source;
pub mod source_map;
pub mod span;
