//! Errors of the language, each with a level, a code, a title, annotated
//! spans and footer notes.

use vstd::prelude::*;

use crate::source::report::{LabelStyle, Report, ReportLabel, Severity};
use crate::source::span::Span;
use crate::text::{nat_digits, u64_text_padded, zero_padded};

verus! {

/// The numeric code of an error.
pub type EnvyErrorCode = u16;

/// How serious an error is.
#[derive(Debug, Clone, Copy, PartialEq, Eq, Structural)]
pub enum EnvyErrorLevel {
    Info,
    Warning,
    Error,
}

impl EnvyErrorLevel {
    /// The reporter severity of the level (`Severity::from`).
    pub open spec fn severity_spec(self) -> Severity {
        match self {
            EnvyErrorLevel::Info => Severity::Note,
            EnvyErrorLevel::Warning => Severity::Warning,
            EnvyErrorLevel::Error => Severity::Error,
        }
    }

    /// The reporter severity of the level.
    pub fn severity(self) -> (res: Severity)
        ensures
            res == self.severity_spec(),
    {
        match self {
            EnvyErrorLevel::Info => Severity::Note,
            EnvyErrorLevel::Warning => Severity::Warning,
            EnvyErrorLevel::Error => Severity::Error,
        }
    }
}

/// A span of source, with an optional message about it.
#[derive(Debug)]
pub struct EnvyErrorAnnotation {
    pub span: Span,
    pub message: Option<String>,
}

/// An error: level, code, title, annotations (the first is the primary one)
/// and footer notes.
#[derive(Debug)]
pub struct EnvyError {
    pub level: EnvyErrorLevel,
    pub code: EnvyErrorCode,
    pub title: String,
    pub annotations: Vec<EnvyErrorAnnotation>,
    pub footer_notes: Vec<String>,
}

/// The code shown for error code `code`: `E` and four digits at least.
pub open spec fn error_code_text(code: u16) -> Seq<char> {
    seq!['E'] + zero_padded(nat_digits(code as nat), 4)
}

/// The label shown for the annotation at index `idx`.
pub open spec fn annotation_label(annotation: EnvyErrorAnnotation, idx: int, label: ReportLabel) -> bool {
    &&& label.style == (if idx == 0 { LabelStyle::Primary } else { LabelStyle::Secondary })
    &&& label.file_id == annotation.span.source_id
    &&& label.start == annotation.span.start_pos
    &&& label.end == annotation.span.end_pos
    &&& label.message@ == (match annotation.message {
        Some(m) => m@,
        None => Seq::<char>::empty(),
    })
}

impl EnvyError {
    /// The report of the error (`Diagnostic::from`): its severity, its code
    /// as `E` and four digits, its title, one label per annotation (the
    /// first primary, the others secondary) and its footer notes.
    pub fn into_report(self) -> (res: Report)
        ensures
            res.severity == self.level.severity_spec(),
            res.code matches Some(c) && c@ == error_code_text(self.code),
            res.message@ == self.title@,
            res.labels@.len() == self.annotations@.len(),
            forall|i: int|
                0 <= i < res.labels@.len() ==> annotation_label(
                    self.annotations@[i],
                    i,
                    #[trigger] res.labels@[i],
                ),
            res.notes@ == self.footer_notes@,
    {
        let EnvyError { level, code, title, annotations, footer_notes } = self;
        let mut code_text = String::new();
        crate::text::push_char(&mut code_text, 'E');
        let digits = u64_text_padded(code as u64, 4);
        crate::text::push_str(&mut code_text, digits.as_str());
        let ghost all = annotations@;
        let _total = annotations.len();
        let mut rest = annotations;
        let mut labels: Vec<ReportLabel> = Vec::new();
        let mut idx: usize = 0;
        while rest.len() > 0
            invariant
                idx + rest@.len() == all.len(),
                all.len() <= usize::MAX,
                rest@ == all.subrange(idx as int, all.len() as int),
                labels@.len() == idx,
                forall|i: int| 0 <= i < idx ==> annotation_label(all[i], i, #[trigger] labels@[i]),
            decreases rest@.len(),
        {
            let annotation = rest.remove(0);
            let style = if idx == 0 { LabelStyle::Primary } else { LabelStyle::Secondary };
            let message = match annotation.message {
                Some(m) => m,
                None => String::new(),
            };
            labels.push(
                ReportLabel {
                    style,
                    file_id: annotation.span.source_id,
                    start: annotation.span.start_pos,
                    end: annotation.span.end_pos,
                    message,
                },
            );
            idx = idx + 1;
            proof {
                assert(rest@ =~= all.subrange(idx as int, all.len() as int));
            }
        }
        Report {
            severity: level.severity(),
            code: Some(code_text),
            message: title,
            labels,
            notes: footer_notes,
        }
    }
}

} // verus!
