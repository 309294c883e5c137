//! The context a compilation shares: its sources, the names it has
//! interned, and the diagnostics reported so far, counted by seriousness.
//! A reported diagnostic is kept, in order, for the terminal to show.

use vstd::prelude::*;

use crate::context::symbol_interner::{interned, SymbolId, SymbolInterner};
use crate::error::{DiagnosticType, EnviousDiagnostic};
use crate::source::source::{Source, SourceId};
use crate::source::source_map::SourceMap;

verus! {

/// How many diagnostics of seriousness `kind` there are in `ds`.
pub open spec fn count_of(ds: Seq<EnviousDiagnostic>, kind: DiagnosticType) -> nat
    decreases ds.len(),
{
    if ds.len() == 0 {
        0
    } else {
        count_of(ds.drop_last(), kind) + if ds.last().kind_spec() == kind { 1nat } else { 0nat }
    }
}

proof fn lemma_counts_bounded(ds: Seq<EnviousDiagnostic>)
    ensures
        count_of(ds, DiagnosticType::Error) + count_of(ds, DiagnosticType::Warning) == ds.len(),
    decreases ds.len(),
{
    if ds.len() > 0 {
        lemma_counts_bounded(ds.drop_last());
    }
}

/// The number of errors and of warnings reported.
#[derive(Debug, Clone, Copy)]
pub struct DiagnosticStats {
    pub error_count: usize,
    pub warning_count: usize,
}

/// Counts the diagnostics reported and keeps them for the terminal.
#[derive(Debug)]
pub struct EnviousDiagnosticHandler {
    warning_count: usize,
    error_count: usize,
    reported: Vec<EnviousDiagnostic>,
}

impl EnviousDiagnosticHandler {
    #[verifier::type_invariant]
    spec fn inv(self) -> bool {
        &&& self.error_count == count_of(self.reported@, DiagnosticType::Error)
        &&& self.warning_count == count_of(self.reported@, DiagnosticType::Warning)
    }

    /// The diagnostics reported, in order.
    pub closed spec fn reported(&self) -> Seq<EnviousDiagnostic> {
        self.reported@
    }

    /// A handler that has seen no diagnostic.
    pub fn new() -> (res: Self)
        ensures
            res.reported() == Seq::<EnviousDiagnostic>::empty(),
    {
        EnviousDiagnosticHandler { warning_count: 0, error_count: 0, reported: Vec::new() }
    }

    /// Reports `diagnostic`.
    pub fn handle_diagnostic(&mut self, diagnostic: EnviousDiagnostic)
        ensures
            final(self).reported() == old(self).reported().push(diagnostic),
    {
        proof {
            use_type_invariant(&*self);
        }
        let kind = diagnostic.get_diagnostic_kind();
        let mut current = EnviousDiagnosticHandler::new();
        std::mem::swap(self, &mut current);
        proof {
            use_type_invariant(&current);
        }
        let EnviousDiagnosticHandler { warning_count, error_count, reported } = current;
        let mut reported = reported;
        let ghost before = reported@;
        reported.push(diagnostic);
        let total = reported.len();
        proof {
            assert(reported@.drop_last() =~= before);
            assert(total == reported@.len());
            lemma_counts_bounded(reported@);
        }
        let (errors, warnings) = match kind {
            DiagnosticType::Warning => (error_count, warning_count + 1),
            DiagnosticType::Error => (error_count + 1, warning_count),
        };
        *self = EnviousDiagnosticHandler { warning_count: warnings, error_count: errors, reported };
    }

    /// The numbers of errors and of warnings reported.
    pub fn get_stats(&self) -> (res: DiagnosticStats)
        ensures
            res.error_count == count_of(self.reported(), DiagnosticType::Error),
            res.warning_count == count_of(self.reported(), DiagnosticType::Warning),
    {
        proof {
            use_type_invariant(self);
        }
        DiagnosticStats { error_count: self.error_count, warning_count: self.warning_count }
    }

    /// The diagnostics reported, in order, for the terminal to show.
    pub fn reported_diagnostics(&self) -> (res: &Vec<EnviousDiagnostic>)
        ensures
            res@ == self.reported(),
    {
        &self.reported
    }
}

/// The sources, names and diagnostics of one compilation.
#[derive(Debug)]
pub struct CompilationContext {
    source_map: SourceMap,
    diagnostic_handler: EnviousDiagnosticHandler,
    symbol_interner: SymbolInterner,
}

impl CompilationContext {
    /// The sources, by id.
    pub closed spec fn sources(&self) -> Seq<Source> {
        self.source_map.view()
    }

    /// The diagnostics reported, in order.
    pub closed spec fn diagnostics(&self) -> Seq<EnviousDiagnostic> {
        self.diagnostic_handler.reported()
    }

    /// The interned names, by id.
    pub closed spec fn symbols(&self) -> Seq<Seq<char>> {
        self.symbol_interner.symbols()
    }

    /// A context with no source, no diagnostic and no name.
    pub fn new() -> (res: Self)
        ensures
            res.sources().len() == 0,
            res.diagnostics() == Seq::<EnviousDiagnostic>::empty(),
            res.symbols() == Seq::<Seq<char>>::empty(),
    {
        CompilationContext {
            source_map: SourceMap::new(),
            diagnostic_handler: EnviousDiagnosticHandler::new(),
            symbol_interner: SymbolInterner::new(),
        }
    }

    /// Adds a source named `name` holding `text`; its id.
    pub fn add_source(&mut self, name: &str, text: &str) -> (id: SourceId)
        ensures
            id == old(self).sources().len(),
            final(self).sources().len() == old(self).sources().len() + 1,
            forall|i: int| 0 <= i < id ==> final(self).sources()[i] == old(self).sources()[i],
            final(self).sources()[id as int].name@ == name@,
            final(self).sources()[id as int].text@ == text@,
            final(self).diagnostics() == old(self).diagnostics(),
            final(self).symbols() == old(self).symbols(),
    {
        self.source_map.push(name, text)
    }

    /// The source with id `source_id`, if there is one.
    pub fn get_source(&self, source_id: SourceId) -> (res: Option<&Source>)
        ensures
            source_id < self.sources().len() ==> (res matches Some(s) && *s == self.sources()[source_id as int]),
            source_id >= self.sources().len() ==> res is None,
    {
        match self.source_map.get(source_id) {
            Ok(source) => Some(source),
            Err(_) => None,
        }
    }

    /// The sources, for a reporter to show them.
    pub fn source_map(&self) -> (res: &SourceMap)
        ensures
            res.view() == self.sources(),
    {
        &self.source_map
    }

    /// Reports `diagnostic`.
    pub fn emit_diagnostic(&mut self, diagnostic: EnviousDiagnostic)
        ensures
            final(self).diagnostics() == old(self).diagnostics().push(diagnostic),
            final(self).sources() == old(self).sources(),
            final(self).symbols() == old(self).symbols(),
    {
        self.diagnostic_handler.handle_diagnostic(diagnostic);
    }

    /// The numbers of errors and of warnings reported.
    pub fn get_diagnostic_stats(&self) -> (res: DiagnosticStats)
        ensures
            res.error_count == count_of(self.diagnostics(), DiagnosticType::Error),
            res.warning_count == count_of(self.diagnostics(), DiagnosticType::Warning),
    {
        self.diagnostic_handler.get_stats()
    }

    /// The diagnostics reported, in order, for the terminal to show.
    pub fn reported_diagnostics(&self) -> (res: &Vec<EnviousDiagnostic>)
        ensures
            res@ == self.diagnostics(),
    {
        self.diagnostic_handler.reported_diagnostics()
    }

    /// The id of the name `text`, interned first if it is new.
    pub fn get_symbol(&mut self, text: &str) -> (res: SymbolId)
        requires
            old(self).symbols().len() < u32::MAX,
        ensures
            (final(self).symbols(), res as int) == interned(old(self).symbols(), text@),
            final(self).sources() == old(self).sources(),
            final(self).diagnostics() == old(self).diagnostics(),
    {
        self.symbol_interner.get_symbol(text)
    }

    /// The name interned under `id`.
    pub fn get_key(&self, id: &SymbolId) -> (res: &str)
        requires
            *id < self.symbols().len(),
        ensures
            res@ == self.symbols()[*id as int],
    {
        self.symbol_interner.get_key(id)
    }
}

} // verus!
