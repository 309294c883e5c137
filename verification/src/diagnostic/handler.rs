//! The handler that prints rendered diagnostics.

use vstd::prelude::*;

verus! {

/// The handler that prints each rendered diagnostic to standard output.
pub struct StdoutHandler;

} // verus!
