//! Compilation units: a source and the stage its compilation has reached.

pub mod compile_unit;
pub mod source;
pub mod source_map;
pub mod span;
