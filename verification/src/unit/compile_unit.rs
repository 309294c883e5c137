//! The unit of compilation and the stages it goes through.

use vstd::prelude::*;

use crate::unit::source::Source;

verus! {

/// How far the compilation of a unit has got.
#[derive(Debug, Clone, Copy, PartialEq, Eq, Structural)]
pub enum CompilationStage {
    YetToStart,
    Working,
    LexicallyAnalyzed,
}

/// A source and the stage its compilation has reached.
pub struct CompileUnit {
    id: usize,
    source: Source,
    compilation_stage: CompilationStage,
    token_stream: Option<Vec<usize>>,
}

impl CompileUnit {
    /// The id of the unit.
    pub closed spec fn id(&self) -> usize {
        self.id
    }

    /// The stage the unit has reached.
    pub closed spec fn stage(&self) -> CompilationStage {
        self.compilation_stage
    }

    /// The source of the unit.
    pub closed spec fn source(&self) -> Source {
        self.source
    }

    /// A unit for `source` that has yet to start. Its id is zero whatever
    /// `id` is given.
    pub fn new(id: usize, source: Source) -> (res: Self)
        ensures
            res.id() == 0,
            res.source() == source,
            res.stage() == CompilationStage::YetToStart,
    {
        Self { id: 0, source, compilation_stage: CompilationStage::YetToStart, token_stream: None }
    }

    /// Runs the lexical analysis of the unit, which leaves it lexically
    /// analyzed.
    pub fn lexically_analyze(&mut self)
        ensures
            final(self).stage() == CompilationStage::LexicallyAnalyzed,
            final(self).id() == old(self).id(),
            final(self).source() == old(self).source(),
    {
        self.compilation_stage = CompilationStage::Working;
        self.compilation_stage = CompilationStage::LexicallyAnalyzed;
    }

    /// The stage the unit has reached.
    pub fn get_current_stage(&self) -> (res: &CompilationStage)
        ensures
            *res == self.stage(),
    {
        &self.compilation_stage
    }
}

} // verus!
