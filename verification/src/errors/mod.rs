//! Errors of the Envious toolchain and how they are shown to the user.

pub mod error;
pub mod error_kind;
