//! The text to be compiled, wherever it comes from.

use vstd::prelude::*;

use crate::unit::source_map::SourcePos;

verus! {

/// `std::path::PathBuf`, held as it is.
#[verifier::external_type_specification]
#[verifier::external_body]
pub struct ExPathBuf(std::path::PathBuf);

/// Where a source comes from.
pub enum FileInformation {
    /// A file at the given path.
    RealFile(std::path::PathBuf),
    /// Text with no file behind it.
    VirtualFile,
}

/// A source: where it comes from, its text, and where it starts and ends in
/// the source map.
pub struct Source {
    pub file_info: FileInformation,
    pub src: String,
    pub start_pos: SourcePos,
    pub end_pos: SourcePos,
}

impl Source {
    /// A source from `file_info` spanning `start_pos..end_pos`, with no text
    /// yet.
    pub fn new(file_info: FileInformation, start_pos: SourcePos, end_pos: SourcePos) -> (res: Self)
        ensures
            res.file_info == file_info,
            res.src@ == Seq::<char>::empty(),
            res.start_pos == start_pos,
            res.end_pos == end_pos,
    {
        Self { file_info, src: String::new(), start_pos, end_pos }
    }
}

} // verus!
