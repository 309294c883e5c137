//! Receivers of diagnostics.

use vstd::prelude::*;

use crate::diagnostic::error::Diagnostic;

verus! {

/// Something that takes diagnostics as they are produced.
pub trait ErrorHandler {
    /// Takes one diagnostic.
    fn handle_diagnostic(&mut self, diagnostic: Diagnostic);
}

/// The handler that prints each diagnostic to standard output.
#[derive(Debug, Default)]
pub struct StdoutErrorHandler {}

} // verus!
