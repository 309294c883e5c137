//! The diagnostics of the token stream and the parser, how serious each is,
//! and the report a terminal shows for each.

use vstd::prelude::*;

use crate::parse::token_kind::TokenKind;
use crate::source::report::{LabelStyle, Report, ReportLabel, Severity};
use crate::source::span::Span;
use crate::text::push_str;

verus! {

/// Something the compiler reports.
#[derive(Debug)]
pub enum EnviousDiagnostic {
    LexerDiagnostic(LexerDiagnosticKind),
    ParserDiagnostic(ParserDiagnosticKind),
}

/// How serious a diagnostic is.
#[derive(Debug, Clone, Copy, PartialEq, Eq, Structural)]
pub enum DiagnosticType {
    Error,
    Warning,
}

/// What the token stream reports.
#[derive(Debug)]
pub enum LexerDiagnosticKind {
    UnknownCharacter(Span),
}

/// What the parser reports.
#[derive(Debug)]
pub enum ParserDiagnosticKind {
    ExpectedKind { span: Span, expected_kinds: Vec<TokenKind>, found_kind: TokenKind },
}

/// A diagnostic as a mathematical value.
pub enum DiagnosticView {
    UnknownCharacter(Span),
    ExpectedKind { span: Span, expected_kinds: Seq<TokenKind>, found_kind: TokenKind },
}

impl View for EnviousDiagnostic {
    type V = DiagnosticView;

    open spec fn view(&self) -> DiagnosticView {
        match self {
            EnviousDiagnostic::LexerDiagnostic(LexerDiagnosticKind::UnknownCharacter(span)) => DiagnosticView::UnknownCharacter(*span),
            EnviousDiagnostic::ParserDiagnostic(ParserDiagnosticKind::ExpectedKind { span, expected_kinds, found_kind }) => {
                DiagnosticView::ExpectedKind { span: *span, expected_kinds: expected_kinds@, found_kind: *found_kind }
            },
        }
    }
}

/// The views of the diagnostics of `ds`.
pub open spec fn diagnostic_views(ds: Seq<EnviousDiagnostic>) -> Seq<DiagnosticView> {
    ds.map_values(|d: EnviousDiagnostic| d@)
}

impl EnviousDiagnostic {
    /// How serious the diagnostic is.
    pub open spec fn kind_spec(&self) -> DiagnosticType {
        match self {
            EnviousDiagnostic::LexerDiagnostic(kind) => kind.kind_spec(),
            EnviousDiagnostic::ParserDiagnostic(kind) => kind.kind_spec(),
        }
    }

    /// How serious the diagnostic is.
    pub fn get_diagnostic_kind(&self) -> (res: DiagnosticType)
        ensures
            res == self.kind_spec(),
    {
        match self {
            EnviousDiagnostic::LexerDiagnostic(kind) => kind.get_diagnostic_kind(),
            EnviousDiagnostic::ParserDiagnostic(kind) => kind.get_diagnostic_kind(),
        }
    }

    /// Whether a report can be made of the diagnostic: a parser diagnostic
    /// must name what it expected, and no kind it names may be `Dummy`.
    pub open spec fn reportable(&self) -> bool {
        match self {
            EnviousDiagnostic::LexerDiagnostic(_) => true,
            EnviousDiagnostic::ParserDiagnostic(kind) => kind.reportable(),
        }
    }

    /// The report of the diagnostic (`Into<Diagnostic>`).
    pub fn to_report(&self) -> (res: Report)
        requires
            self.reportable(),
        ensures
            match self {
                EnviousDiagnostic::LexerDiagnostic(kind) => kind.report_spec(res),
                EnviousDiagnostic::ParserDiagnostic(kind) => kind.report_spec(res),
            },
    {
        match self {
            EnviousDiagnostic::LexerDiagnostic(kind) => kind.to_report(),
            EnviousDiagnostic::ParserDiagnostic(kind) => kind.to_report(),
        }
    }
}

/// `r` has one primary label over `span`, with no message of its own.
pub open spec fn labels_span(r: Report, span: Span) -> bool {
    &&& r.labels@.len() == 1
    &&& r.labels@[0].style == LabelStyle::Primary
    &&& r.labels@[0].file_id == span.source_id
    &&& r.labels@[0].start == span.start_pos
    &&& r.labels@[0].end == span.end_pos
    &&& r.labels@[0].message@ == Seq::<char>::empty()
}

/// The report with one primary label over `span`.
fn primary_label(span: Span) -> (res: Vec<ReportLabel>)
    ensures
        res@.len() == 1,
        res@[0].style == LabelStyle::Primary,
        res@[0].file_id == span.source_id,
        res@[0].start == span.start_pos,
        res@[0].end == span.end_pos,
        res@[0].message@ == Seq::<char>::empty(),
{
    let mut labels: Vec<ReportLabel> = Vec::new();
    labels.push(ReportLabel {
        style: LabelStyle::Primary,
        file_id: span.source_id,
        start: span.start_pos,
        end: span.end_pos,
        message: String::new(),
    });
    labels
}

impl LexerDiagnosticKind {
    /// How serious the diagnostic is.
    pub open spec fn kind_spec(&self) -> DiagnosticType {
        DiagnosticType::Error
    }

    /// How serious the diagnostic is.
    pub fn get_diagnostic_kind(&self) -> (res: DiagnosticType)
        ensures
            res == self.kind_spec(),
    {
        match self {
            LexerDiagnosticKind::UnknownCharacter(_) => DiagnosticType::Error,
        }
    }

    /// `r` is the report of the diagnostic: the error `E0001`, "unrecognized
    /// character", over the character.
    pub open spec fn report_spec(&self, r: Report) -> bool {
        match self {
            LexerDiagnosticKind::UnknownCharacter(span) => {
                &&& r.severity == Severity::Error
                &&& r.code matches Some(code) && code@ == "E0001"@
                &&& r.message@ == "unrecognized character"@
                &&& labels_span(r, *span)
                &&& r.notes@.len() == 0
            },
        }
    }

    /// The report of the diagnostic.
    pub fn to_report(&self) -> (res: Report)
        ensures
            self.report_spec(res),
    {
        match self {
            LexerDiagnosticKind::UnknownCharacter(span) => Report {
                severity: Severity::Error,
                code: Some("E0001".to_owned()),
                message: "unrecognized character".to_owned(),
                labels: primary_label(*span),
                notes: Vec::new(),
            },
        }
    }
}

/// The names of `kinds` from index `from` up to `to`, separated by commas.
pub open spec fn joined(kinds: Seq<TokenKind>, from: int, to: int) -> Seq<char>
    decreases to - from,
{
    if to <= from {
        Seq::empty()
    } else if to == from + 1 {
        kinds[from].text()
    } else {
        joined(kinds, from, to - 1) + ", "@ + kinds[to - 1].text()
    }
}

/// How a message names the kinds expected: one name; two joined by `or`;
/// more as the first, a comma, the middle ones separated by commas, then
/// `or` and the last (no comma or space before the `or`).
pub open spec fn expected_message(kinds: Seq<TokenKind>) -> Seq<char> {
    if kinds.len() == 1 {
        kinds[0].text()
    } else if kinds.len() == 2 {
        kinds[0].text() + " or "@ + kinds[1].text()
    } else {
        kinds[0].text() + ", "@ + joined(kinds, 1, kinds.len() - 1) + "or "@ + kinds[kinds.len() - 1].text()
    }
}

impl ParserDiagnosticKind {
    /// How serious the diagnostic is.
    pub open spec fn kind_spec(&self) -> DiagnosticType {
        DiagnosticType::Error
    }

    /// How serious the diagnostic is.
    pub fn get_diagnostic_kind(&self) -> (res: DiagnosticType)
        ensures
            res == self.kind_spec(),
    {
        match self {
            ParserDiagnosticKind::ExpectedKind { .. } => DiagnosticType::Error,
        }
    }

    /// Whether a report can be made of the diagnostic: it names what it
    /// expected, and names no `Dummy`.
    pub open spec fn reportable(&self) -> bool {
        match self {
            ParserDiagnosticKind::ExpectedKind { expected_kinds, found_kind, .. } => {
                &&& expected_kinds@.len() > 0
                &&& forall|i: int| 0 <= i < expected_kinds@.len() ==> !(#[trigger] expected_kinds@[i] is Dummy)
                &&& !(*found_kind is Dummy)
            },
        }
    }

    /// `r` is the report of the diagnostic: the error `E0002`, "unexpected
    /// item", over the token, with a note of what was expected and one of
    /// what was found.
    pub open spec fn report_spec(&self, r: Report) -> bool {
        match self {
            ParserDiagnosticKind::ExpectedKind { span, expected_kinds, found_kind } => {
                &&& r.severity == Severity::Error
                &&& r.code matches Some(code) && code@ == "E0002"@
                &&& r.message@ == "unexpected item"@
                &&& labels_span(r, *span)
                &&& r.notes@.len() == 2
                &&& r.notes@[0]@ == "expected "@ + expected_message(expected_kinds@)
                &&& r.notes@[1]@ == "got "@ + found_kind.text()
            },
        }
    }

    /// The report of the diagnostic.
    pub fn to_report(&self) -> (res: Report)
        requires
            self.reportable(),
        ensures
            self.report_spec(res),
    {
        match self {
            ParserDiagnosticKind::ExpectedKind { span, expected_kinds, found_kind } => {
                let mut expected = String::new();
                push_str(&mut expected, "expected ");
                let message = expected_kinds_message(expected_kinds);
                push_str(&mut expected, message.as_str());
                let mut got = String::new();
                push_str(&mut got, "got ");
                push_str(&mut got, found_kind.description());
                let mut notes: Vec<String> = Vec::new();
                notes.push(expected);
                notes.push(got);
                Report {
                    severity: Severity::Error,
                    code: Some("E0002".to_owned()),
                    message: "unexpected item".to_owned(),
                    labels: primary_label(*span),
                    notes,
                }
            },
        }
    }
}

/// How a message names the kinds `kinds` expected.
fn expected_kinds_message(kinds: &Vec<TokenKind>) -> (res: String)
    requires
        kinds@.len() > 0,
        forall|i: int| 0 <= i < kinds@.len() ==> !(#[trigger] kinds@[i] is Dummy),
    ensures
        res@ == expected_message(kinds@),
{
    let n = kinds.len();
    let mut res = String::new();
    if n == 1 {
        push_str(&mut res, kinds[0].description());
    } else if n == 2 {
        push_str(&mut res, kinds[0].description());
        push_str(&mut res, " or ");
        push_str(&mut res, kinds[1].description());
    } else {
        push_str(&mut res, kinds[0].description());
        push_str(&mut res, ", ");
        let ghost prefix = res@;
        let mut i: usize = 1;
        while i < n - 1
            invariant
                n == kinds@.len(),
                n >= 3,
                1 <= i <= n - 1,
                forall|k: int| 0 <= k < kinds@.len() ==> !(#[trigger] kinds@[k] is Dummy),
                res@ == prefix + joined(kinds@, 1, i as int),
            decreases n - i,
        {
            if i > 1 {
                push_str(&mut res, ", ");
            }
            push_str(&mut res, kinds[i].description());
            proof {
                assert(res@ =~= prefix + joined(kinds@, 1, i + 1));
            }
            i = i + 1;
        }
        push_str(&mut res, "or ");
        push_str(&mut res, kinds[n - 1].description());
    }
    res
}

} // verus!
