//! A cursor over the characters of a source that yields one end-of-file
//! marker after the last character.

use vstd::prelude::*;

use crate::source::source::{text_bytes, Source};
use crate::source::span::SourcePos;
use crate::text::chars_of;

verus! {

/// Where a cursor stands: the index of the next character, and whether
/// the end-of-file marker has been handed out.
pub struct IterState {
    pub index: int,
    pub reached_eof: bool,
}

/// The next item of a cursor over `chars` whose source is `source_len`
/// bytes long, and where the cursor stands afterwards. Past the last
/// character comes, once, the marker `'\0'` at position `source_len`.
/// Looking at it counts as handing it out.
pub open spec fn iter_peek(chars: Seq<char>, source_len: int, st: IterState) -> (Option<(int, char)>, IterState) {
    if 0 <= st.index < chars.len() {
        (Some((st.index, chars[st.index])), st)
    } else if !st.reached_eof {
        (Some((source_len, '\0')), IterState { reached_eof: true, ..st })
    } else {
        (None, st)
    }
}

/// The item a cursor hands out next, and where it stands afterwards.
pub open spec fn iter_next(chars: Seq<char>, source_len: int, st: IterState) -> (Option<(int, char)>, IterState) {
    if 0 <= st.index < chars.len() {
        (Some((st.index, chars[st.index])), IterState { index: st.index + 1, ..st })
    } else if !st.reached_eof {
        (Some((source_len, '\0')), IterState { reached_eof: true, ..st })
    } else {
        (None, st)
    }
}

/// A cursor over the characters of a source.
pub struct SourceIter {
    source_len: usize,
    reached_eof: bool,
    chars: Vec<char>,
    index: usize,
}

impl SourceIter {
    /// The cursor stands within its text, and the end marker's position fits
    /// a position with room for one more.
    pub closed spec fn wf(&self) -> bool {
        &&& self.index <= self.chars@.len()
        &&& self.chars@.len() <= self.source_len < usize::MAX
        &&& (self.reached_eof ==> self.index == self.chars@.len())
    }

    /// The characters the cursor runs over.
    pub closed spec fn chars(&self) -> Seq<char> {
        self.chars@
    }

    /// The length of the source in bytes: where the end-of-file marker stands.
    pub closed spec fn source_len(&self) -> int {
        self.source_len as int
    }

    /// Where the cursor stands.
    pub closed spec fn state(&self) -> IterState {
        IterState { index: self.index as int, reached_eof: self.reached_eof }
    }

    /// The cursor stands within its text and its end marker fits a position.
    pub proof fn lemma_inv(&self)
        requires
            self.wf(),
        ensures
            0 <= self.state().index <= self.chars().len(),
            0 <= self.source_len() < usize::MAX,
            self.chars().len() <= self.source_len(),
            self.state().reached_eof ==> self.state().index == self.chars().len(),
    {
    }

    /// A cursor at the start of the text of `source`.
    pub fn new(source: &Source) -> (res: Self)
        requires
            text_bytes(source.text@).len() < usize::MAX,
        ensures
            res.chars() == source.text@,
            res.source_len() == text_bytes(source.text@).len(),
            res.state() == (IterState { index: 0, reached_eof: false }),
            res.wf(),
    {
        let chars = chars_of(source.text.as_str());
        let source_len = source.text.as_str().len();
        proof {
            crate::text::lemma_bytes_at_least_chars(source.text@);
        }
        SourceIter { source_len, reached_eof: false, chars, index: 0 }
    }

    /// The next character and its position, without moving past it.
    pub fn peek(&mut self) -> (res: Option<(SourcePos, char)>)
        requires
            old(self).wf(),
        ensures
            final(self).wf(),
            final(self).chars() == old(self).chars(),
            final(self).source_len() == old(self).source_len(),
            ({
                let (item, st) = iter_peek(old(self).chars(), old(self).source_len(), old(self).state());
                &&& final(self).state() == st
                &&& match (res, item) {
                    (Some((p, c)), Some((q, d))) => p as int == q && c == d,
                    (None, None) => true,
                    _ => false,
                }
            }),
    {
        if self.index < self.chars.len() {
            Some((self.index, self.chars[self.index]))
        } else if !self.reached_eof {
            self.reached_eof = true;
            Some((self.source_len, '\0'))
        } else {
            None
        }
    }

    /// The next character and its position, moving past it.
    pub fn next(&mut self) -> (res: Option<(SourcePos, char)>)
        requires
            old(self).wf(),
        ensures
            final(self).wf(),
            final(self).chars() == old(self).chars(),
            final(self).source_len() == old(self).source_len(),
            ({
                let (item, st) = iter_next(old(self).chars(), old(self).source_len(), old(self).state());
                &&& final(self).state() == st
                &&& match (res, item) {
                    (Some((p, c)), Some((q, d))) => p as int == q && c == d,
                    (None, None) => true,
                    _ => false,
                }
            }),
    {
        if self.index < self.chars.len() {
            let item = (self.index, self.chars[self.index]);
            self.index = self.index + 1;
            Some(item)
        } else if !self.reached_eof {
            self.reached_eof = true;
            Some((self.source_len, '\0'))
        } else {
            None
        }
    }

    /// The length of the source in bytes.
    pub fn source_length(&self) -> (res: usize)
        ensures
            res == self.source_len(),
    {
        self.source_len
    }

    /// The characters from `from` to `to` spell `word`.
    pub fn text_matches(&self, from: usize, to: usize, word: &str) -> (res: bool)
        requires
            self.wf(),
            from <= to <= self.chars().len(),
        ensures
            res == (self.chars().subrange(from as int, to as int) == word@),
    {
        crate::text::chars_match(&self.chars, from, to, word)
    }
}

} // verus!
