//! The sources of a compilation, looked up by id, with line lookups.

use vstd::prelude::*;

use crate::source::source::{
    is_line_table, lemma_line_starts_table, line_starts_spec, text_bytes, Source, SourceId,
    same_offsets,
};

verus! {

/// Why a lookup in the source map failed.
#[derive(Debug, Clone, Copy, PartialEq, Eq, Structural)]
pub enum FilesError {
    /// No source has the given id.
    FileMissing,
    /// The source has no line with the given index.
    LineTooLarge { given: usize, max: usize },
}

/// The line of a line table that holds the byte `byte_idx`: the last line
/// whose start is at or before it.
pub open spec fn line_of(starts: Seq<usize>, byte_idx: int, line: int) -> bool {
    &&& 0 <= line < starts.len()
    &&& starts[line] <= byte_idx
    &&& (line + 1 == starts.len() || byte_idx < starts[line + 1])
}

/// The sources of a compilation; a source's id is its index.
#[derive(Debug)]
pub struct SourceMap {
    sources: Vec<Source>,
}

impl SourceMap {
    /// Every source is well formed and sits at the index of its id.
    #[verifier::type_invariant]
    spec fn inv(self) -> bool {
        forall|i: int|
            0 <= i < self.sources@.len() ==> (#[trigger] self.sources@[i]).wf()
                && self.sources@[i].id == i
    }

    /// The sources, in the order of their ids.
    pub closed spec fn view(&self) -> Seq<Source> {
        self.sources@
    }

    /// The empty source map (`Default`).
    pub fn new() -> (res: Self)
        ensures
            res.view().len() == 0,
    {
        SourceMap { sources: Vec::new() }
    }

    /// Adds a source named `name` holding `text`; returns its id, the number
    /// of sources before it.
    pub fn push(&mut self, name: &str, text: &str) -> (id: usize)
        ensures
            id == old(self).view().len(),
            final(self).view().len() == old(self).view().len() + 1,
            forall|i: int| 0 <= i < id ==> final(self).view()[i] == old(self).view()[i],
            final(self).view()[id as int].id == id,
            final(self).view()[id as int].name@ == name@,
            final(self).view()[id as int].text@ == text@,
    {
        proof {
            use_type_invariant(&*self);
        }
        let id = self.sources.len();
        let source = Source::new(id, name.to_owned(), text.to_owned());
        let mut sources: Vec<Source> = Vec::new();
        std::mem::swap(&mut sources, &mut self.sources);
        sources.push(source);
        self.sources = sources;
        self.sources.len() - 1
    }

    /// The source with id `source_id`.
    pub fn get(&self, source_id: SourceId) -> (res: Result<&Source, FilesError>)
        ensures
            source_id < self.view().len() ==> (res matches Ok(s) && *s == self.view()[source_id as int]),
            source_id >= self.view().len() ==> res == Err::<&Source, FilesError>(FilesError::FileMissing),
    {
        if source_id < self.sources.len() {
            Ok(&self.sources[source_id])
        } else {
            Err(FilesError::FileMissing)
        }
    }

    /// The name of source `id`.
    pub fn name(&self, id: SourceId) -> (res: Result<&str, FilesError>)
        ensures
            id < self.view().len() ==> (res matches Ok(s) && s@ == self.view()[id as int].name@),
            id >= self.view().len() ==> res == Err::<&str, FilesError>(FilesError::FileMissing),
    {
        match self.get(id) {
            Ok(source) => Ok(source.name.as_str()),
            Err(e) => Err(e),
        }
    }

    /// The text of source `id`.
    pub fn source(&self, id: SourceId) -> (res: Result<&str, FilesError>)
        ensures
            id < self.view().len() ==> (res matches Ok(s) && s@ == self.view()[id as int].text@),
            id >= self.view().len() ==> res == Err::<&str, FilesError>(FilesError::FileMissing),
    {
        match self.get(id) {
            Ok(source) => Ok(source.text.as_str()),
            Err(e) => Err(e),
        }
    }

    /// The index of the line of source `id` that holds byte `byte_idx`.
    pub fn line_index(&self, id: SourceId, byte_idx: usize) -> (res: Result<usize, FilesError>)
        ensures
            id < self.view().len() ==> (res matches Ok(line) && line_of(
                self.view()[id as int].precomputed_line_starts@,
                byte_idx as int,
                line as int,
            )),
            id >= self.view().len() ==> res == Err::<usize, FilesError>(FilesError::FileMissing),
    {
        proof {
            use_type_invariant(self);
        }
        match self.get(id) {
            Err(e) => Err(e),
            Ok(source) => {
                proof {
                    assert(source.wf());
                    lemma_line_starts_table(text_bytes(source.text@));
                    let spec = line_starts_spec(text_bytes(source.text@));
                    let len = text_bytes(source.text@).len() as int;
                    assert(same_offsets(source.precomputed_line_starts@, spec) && is_line_table(spec, len));
                }
                Ok(last_start_at_or_before(&source.precomputed_line_starts, byte_idx))
            },
        }
    }

    /// The byte range of line `line_idx` of source `id`: from its start to the
    /// start of the next line.
    pub fn line_range(&self, id: SourceId, line_idx: usize) -> (res: Result<(usize, usize), FilesError>)
        ensures
            id >= self.view().len() ==> res == Err::<(usize, usize), FilesError>(FilesError::FileMissing),
            id < self.view().len() ==> ({
                let starts = self.view()[id as int].precomputed_line_starts@;
                let len = text_bytes(self.view()[id as int].text@).len();
                &&& line_idx + 1 < starts.len() ==> res == Ok::<(usize, usize), FilesError>(
                    (starts[line_idx as int], starts[line_idx + 1]),
                )
                &&& line_idx + 1 == starts.len() ==> res == Ok::<(usize, usize), FilesError>(
                    (starts[line_idx as int], len as usize),
                )
                &&& line_idx + 1 > starts.len() ==> (res matches Err(FilesError::LineTooLarge { given, max })
                    && max == starts.len() - 1 && (given == line_idx || given == line_idx + 1))
            }),
    {
        proof {
            use_type_invariant(self);
        }
        let source = match self.get(id) {
            Ok(source) => source,
            Err(e) => return Err(e),
        };
        proof {
            assert(source.wf());
            lemma_line_starts_table(text_bytes(source.text@));
        }
        let line_start = match source.line_start(line_idx) {
            Ok(start) => start,
            Err(e) => return Err(e),
        };
        let next_line_start = match source.line_start(line_idx + 1) {
            Ok(start) => start,
            Err(e) => return Err(e),
        };
        Ok((line_start, next_line_start))
    }
}

/// The index of the last offset of a line table at or before `byte_idx`.
fn last_start_at_or_before(starts: &Vec<usize>, byte_idx: usize) -> (line: usize)
    requires
        exists|spec: Seq<int>, len: int| same_offsets(starts@, spec) && is_line_table(spec, len),
    ensures
        line_of(starts@, byte_idx as int, line as int),
{
    let ghost (spec, len) = choose|spec: Seq<int>, len: int| same_offsets(starts@, spec) && is_line_table(spec, len);
    // Search for the line in `lo..hi`: `starts[lo] <= byte_idx`, and every
    // start from `hi` on lies past `byte_idx`.
    let mut lo: usize = 0;
    let mut hi: usize = starts.len();
    while lo + 1 < hi
        invariant
            same_offsets(starts@, spec),
            is_line_table(spec, len),
            0 <= lo < hi <= starts@.len(),
            starts@[lo as int] <= byte_idx,
            hi < starts@.len() ==> byte_idx < starts@[hi as int],
        decreases hi - lo,
    {
        let mid = lo + (hi - lo) / 2;
        if starts[mid] <= byte_idx {
            lo = mid;
        } else {
            hi = mid;
        }
    }
    lo
}

} // verus!
