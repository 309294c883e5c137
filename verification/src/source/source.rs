//! A named source text together with the byte offsets at which its lines start.

use vstd::prelude::*;
use vstd::utf8::encode_utf8;

use crate::source::source_map::FilesError;

verus! {

/// The index of a source in its source map.
pub type SourceId = usize;

/// A byte offset at which a line starts.
pub type LineStartIdx = usize;

/// The UTF-8 bytes of a text.
pub open spec fn text_bytes(text: Seq<char>) -> Seq<u8> {
    encode_utf8(text)
}

/// The offsets just past each newline byte of `bytes`, in increasing order.
pub open spec fn newline_ends(bytes: Seq<u8>) -> Seq<int>
    decreases bytes.len(),
{
    if bytes.len() == 0 {
        Seq::empty()
    } else if bytes.last() == 10u8 {
        newline_ends(bytes.drop_last()).push(bytes.len() as int)
    } else {
        newline_ends(bytes.drop_last())
    }
}

/// The byte offsets at which the lines of `bytes` start: the first line at
/// offset zero, and one more line after each newline.
pub open spec fn line_starts_spec(bytes: Seq<u8>) -> Seq<int> {
    seq![0int].add(newline_ends(bytes))
}

/// The offsets held in `starts` are those of `spec`.
pub open spec fn same_offsets(starts: Seq<usize>, spec: Seq<int>) -> bool {
    &&& starts.len() == spec.len()
    &&& forall|i: int| 0 <= i < starts.len() ==> starts[i] as int == spec[i]
}

/// The offsets are strictly increasing and lie within `0..=len`.
pub open spec fn is_line_table(starts: Seq<int>, len: int) -> bool {
    &&& starts.len() >= 1
    &&& starts[0] == 0
    &&& forall|i: int, j: int| 0 <= i < j < starts.len() ==> starts[i] < starts[j]
    &&& forall|i: int| 0 <= i < starts.len() ==> starts[i] <= len
}

proof fn lemma_newline_ends_table(bytes: Seq<u8>)
    ensures
        forall|i: int, j: int|
            0 <= i < j < newline_ends(bytes).len() ==> #[trigger] newline_ends(bytes)[i]
                < #[trigger] newline_ends(bytes)[j],
        forall|i: int|
            0 <= i < newline_ends(bytes).len() ==> 1 <= #[trigger] newline_ends(bytes)[i] <= bytes.len(),
    decreases bytes.len(),
{
    if bytes.len() > 0 {
        let prev = bytes.drop_last();
        lemma_newline_ends_table(prev);
        let r = newline_ends(prev);
        if bytes.last() == 10u8 {
            let n = r.push(bytes.len() as int);
            assert(newline_ends(bytes) == n);
            assert forall|i: int, j: int| 0 <= i < j < n.len() implies #[trigger] n[i] < #[trigger] n[j] by {
                if j < r.len() {
                    assert(n[i] == r[i] && n[j] == r[j]);
                } else {
                    assert(n[i] == r[i]);
                }
            }
            assert forall|i: int| 0 <= i < n.len() implies 1 <= #[trigger] n[i] <= bytes.len() by {
                if i < r.len() {
                    assert(n[i] == r[i]);
                }
            }
        } else {
            assert(newline_ends(bytes) == r);
        }
    }
}

/// The line offsets of any text form a line table.
pub proof fn lemma_line_starts_table(bytes: Seq<u8>)
    ensures
        is_line_table(line_starts_spec(bytes), bytes.len() as int),
{
    lemma_newline_ends_table(bytes);
    let s = line_starts_spec(bytes);
    assert forall|i: int, j: int| 0 <= i < j < s.len() implies s[i] < s[j] by {
        if i > 0 {
            assert(s[i] == newline_ends(bytes)[i - 1]);
        }
        assert(s[j] == newline_ends(bytes)[j - 1]);
    }
    assert forall|i: int| 0 <= i < s.len() implies s[i] <= bytes.len() by {
        if i > 0 {
            assert(s[i] == newline_ends(bytes)[i - 1]);
        }
    }
}

/// The byte offsets at which the lines of `text` start
/// (`codespan_reporting::files::line_starts`).
#[verifier::external_body]
fn line_starts_of(text: &str) -> (res: Vec<usize>)
    ensures
        same_offsets(res@, line_starts_spec(text_bytes(text@))),
        res@.len() < usize::MAX,
{
    codespan_reporting::files::line_starts(text).collect()
}

/// A source file: its id, its name, its text and the offsets of its lines.
#[derive(Debug)]
pub struct Source {
    pub id: SourceId,
    pub name: String,
    pub text: String,
    pub precomputed_line_starts: Vec<LineStartIdx>,
}

impl Source {
    /// The line offsets are those of the text.
    pub open spec fn wf(&self) -> bool {
        &&& same_offsets(self.precomputed_line_starts@, line_starts_spec(text_bytes(self.text@)))
        &&& self.precomputed_line_starts@.len() < usize::MAX
    }

    /// The source `id` named `name` holding `text`, with its line offsets
    /// computed from the text.
    pub fn new(id: SourceId, name: String, text: String) -> (res: Self)
        ensures
            res.id == id,
            res.name@ == name@,
            res.text@ == text@,
            res.wf(),
    {
        let precomputed_line_starts = line_starts_of(text.as_str());
        Self { id, name, text, precomputed_line_starts }
    }

    /// The byte offset at which line `line_idx` starts; the line just past
    /// the last one starts at the end of the text.
    pub fn line_start(&self, line_idx: usize) -> (res: Result<usize, FilesError>)
        requires
            self.precomputed_line_starts@.len() > 0 || line_idx == 0,
        ensures
            line_idx < self.precomputed_line_starts@.len() ==> res == Ok::<usize, FilesError>(
                self.precomputed_line_starts@[line_idx as int],
            ),
            line_idx == self.precomputed_line_starts@.len() ==> res == Ok::<usize, FilesError>(
                text_bytes(self.text@).len() as usize,
            ),
            line_idx > self.precomputed_line_starts@.len() ==> res == Err::<usize, FilesError>(
                FilesError::LineTooLarge {
                    given: line_idx,
                    max: (self.precomputed_line_starts@.len() - 1) as usize,
                },
            ),
    {
        let len = self.precomputed_line_starts.len();
        if line_idx < len {
            Ok(self.precomputed_line_starts[line_idx])
        } else if line_idx == len {
            Ok(self.text.as_str().len())
        } else {
            Err(FilesError::LineTooLarge { given: line_idx, max: len - 1 })
        }
    }
}

} // verus!
