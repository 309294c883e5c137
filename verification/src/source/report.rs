//! A rendered-ready description of a diagnostic: what a terminal reporter
//! prints for it.

use vstd::prelude::*;

use crate::source::source::SourceId;

verus! {

/// How serious a diagnostic is.
#[derive(Debug, Clone, Copy, PartialEq, Eq, Structural)]
pub enum Severity {
    Bug,
    Error,
    Warning,
    Note,
    Help,
}

/// Whether a label marks the main cause of a diagnostic or a related place.
#[derive(Debug, Clone, Copy, PartialEq, Eq, Structural)]
pub enum LabelStyle {
    Primary,
    Secondary,
}

/// A message attached to a byte range of a source.
#[derive(Debug)]
pub struct ReportLabel {
    pub style: LabelStyle,
    pub file_id: SourceId,
    pub start: usize,
    pub end: usize,
    pub message: String,
}

/// A diagnostic as a reporter shows it: severity, code, message, labelled
/// source ranges and notes.
#[derive(Debug)]
pub struct Report {
    pub severity: Severity,
    pub code: Option<String>,
    pub message: String,
    pub labels: Vec<ReportLabel>,
    pub notes: Vec<String>,
}

} // verus!
