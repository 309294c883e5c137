//! The sources of a compilation laid end to end in one position space.

use vstd::prelude::*;

use crate::source::source::text_bytes;
use crate::unit::source::Source;

verus! {

/// A position in the source map.
#[derive(Debug, Clone, Copy, PartialEq, Eq, Structural, PartialOrd, Ord)]
pub struct SourcePos(usize);

impl SourcePos {
    /// The offset of the position.
    pub closed spec fn offset(self) -> usize {
        self.0
    }

    /// The position at `offset`.
    pub fn new(offset: usize) -> (res: SourcePos)
        ensures
            res.offset() == offset,
    {
        SourcePos(offset)
    }
}

/// The sources, ordered by the position at which each starts.
pub struct SourceMap {
    next_source_start: usize,
    source_files: Vec<Source>,
}

impl SourceMap {
    #[verifier::type_invariant]
    spec fn inv(self) -> bool {
        &&& forall|i: int, j: int|
            0 <= i < j < self.source_files@.len() ==> (#[trigger] self.source_files@[i]).start_pos.0
                < (#[trigger] self.source_files@[j]).start_pos.0
        &&& forall|i: int| 0 <= i < self.source_files@.len() ==> (#[trigger] self.source_files@[i]).start_pos.0 < self.next_source_start
    }

    /// The sources, in order of their start positions.
    pub closed spec fn files(&self) -> Seq<Source> {
        self.source_files@
    }

    /// The position at which the next source added will start.
    pub closed spec fn next(&self) -> usize {
        self.next_source_start
    }

    /// Adds `source` after the others: it starts at the next free position
    /// and ends as many positions on as its text has bytes, and the next
    /// source starts one position past its end. The position it starts at;
    /// `None`, the map unchanged, when its positions would not fit in a
    /// `usize`.
    pub fn add_source(&mut self, source: Source) -> (res: Option<SourcePos>)
        ensures
            match res {
                Some(start) => {
                    let len = text_bytes(source.src@).len() as usize;
                    &&& start.offset() == old(self).next()
                    &&& old(self).next() + len + 1 <= usize::MAX
                    &&& final(self).files().len() == old(self).files().len() + 1
                    &&& final(self).files().subrange(0, old(self).files().len() as int) == old(self).files()
                    &&& final(self).files().last().start_pos == start
                    &&& final(self).files().last().end_pos.offset() == start.offset() + len
                    &&& final(self).files().last().src == source.src
                    &&& final(self).files().last().file_info == source.file_info
                    &&& final(self).next() == start.offset() + len + 1
                },
                None => {
                    &&& old(self).next() + (text_bytes(source.src@).len() as usize) + 1 > usize::MAX
                    &&& final(self).files() == old(self).files()
                    &&& final(self).next() == old(self).next()
                },
            },
    {
        proof {
            use_type_invariant(&*self);
        }
        let len = source.src.as_str().len();
        let start = self.next_source_start;
        if len >= usize::MAX - start {
            return None;
        }
        let Source { file_info, src, .. } = source;
        let placed = Source { file_info, src, start_pos: SourcePos(start), end_pos: SourcePos(start + len) };
        let ghost before = self.source_files@;
        let mut files: Vec<Source> = Vec::new();
        std::mem::swap(&mut files, &mut self.source_files);
        files.push(placed);
        proof {
            assert(files@.subrange(0, before.len() as int) =~= before);
        }
        *self = SourceMap { next_source_start: start + len + 1, source_files: files };
        Some(SourcePos(start))
    }

    /// The empty source map (`Default`).
    pub fn new() -> (res: Self)
        ensures
            res.files().len() == 0,
    {
        SourceMap { next_source_start: 0, source_files: Vec::new() }
    }

    /// The source that starts at `pos`; there must be one.
    pub fn get_source(&mut self, pos: SourcePos) -> (res: &Source)
        requires
            exists|i: int| 0 <= i < old(self).files().len() && (#[trigger] old(self).files()[i]).start_pos == pos,
        ensures
            final(self).files() == old(self).files(),
            exists|i: int|
                0 <= i < old(self).files().len() && *res == old(self).files()[i]
                    && (#[trigger] old(self).files()[i]).start_pos == pos,
    {
        proof {
            use_type_invariant(&*self);
        }
        let ghost target = choose|i: int| 0 <= i < self.files().len() && (#[trigger] self.files()[i]).start_pos == pos;
        let mut lo: usize = 0;
        let mut hi: usize = self.source_files.len();
        while lo + 1 < hi
            invariant
                0 <= lo <= target < hi <= self.source_files@.len(),
                self.source_files@[target].start_pos == pos,
                forall|i: int, j: int|
                    0 <= i < j < self.source_files@.len() ==> (#[trigger] self.source_files@[i]).start_pos.0
                        < (#[trigger] self.source_files@[j]).start_pos.0,
            decreases hi - lo,
        {
            let mid = lo + (hi - lo) / 2;
            if self.source_files[mid].start_pos.0 <= pos.0 {
                lo = mid;
            } else {
                hi = mid;
            }
        }
        &self.source_files[lo]
    }
}

} // verus!
