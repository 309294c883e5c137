//! Diagnostics whose messages point at snippets of source.

use vstd::prelude::*;

use crate::source::snippet::{Snippet, SourcePos};

verus! {

/// How serious a message is.
#[derive(Debug, Clone, Copy, PartialEq, Eq, Structural)]
pub enum Level {
    Error,
    Warning,
    Help,
}

/// A message, possibly about a snippet of source.
#[derive(Debug)]
pub struct Message<'a> {
    snippet: Option<Snippet>,
    level: Level,
    message: &'a str,
}

impl<'a> Message<'a> {
    /// The snippet the message is about, if any.
    pub closed spec fn snippet(&self) -> Option<Snippet> {
        self.snippet
    }

    /// The level of the message.
    pub closed spec fn level(&self) -> Level {
        self.level
    }

    /// The text of the message.
    pub closed spec fn text(&self) -> Seq<char> {
        self.message@
    }

    /// The message is about a snippet.
    pub open spec fn has_snippet(self) -> bool {
        self.snippet() is Some
    }

    /// The message `message` of level `level`, about `snippet` if given.
    pub fn new(level: Level, message: &'a str, snippet: Option<Snippet>) -> (res: Self)
        ensures
            res.level() == level,
            res.text() == message@,
            res.snippet() == snippet,
    {
        Self { level, message, snippet }
    }
}

/// Messages about one snippet of source.
#[derive(Debug)]
pub struct SubDiagnostic<'a> {
    messages: Vec<Message<'a>>,
    snippet: Snippet,
}

/// A message placed on a range relative to the start of the shown source.
#[derive(Debug, Clone, Copy)]
pub struct SourceAnnotation<'a> {
    pub range: (usize, usize),
    pub label: &'a str,
    pub level: Level,
}

impl<'a> SubDiagnostic<'a> {
    /// The messages.
    pub closed spec fn messages(&self) -> Seq<Message<'a>> {
        self.messages@
    }

    /// The snippet the messages are about.
    pub closed spec fn snippet(&self) -> Snippet {
        self.snippet
    }

    /// The messages `messages` about `snippet`.
    pub fn new(messages: Vec<Message<'a>>, snippet: Snippet) -> (res: Self)
        ensures
            res.messages() == messages@,
            res.snippet() == snippet,
    {
        Self { messages, snippet }
    }

    /// The annotations shown when the source is displayed from
    /// `extended_start` on: one for each message that has a snippet, in
    /// order, with the snippet's range counted from `extended_start`.
    pub fn source_annotations(&self, extended_start: SourcePos) -> (res: Vec<SourceAnnotation<'a>>)
        requires
            forall|i: int|
                0 <= i < self.messages().len() ==> ((#[trigger] self.messages()[i]).snippet() matches Some(s)
                    ==> extended_start.0 <= s.start.0 && extended_start.0 <= s.end.0),
        ensures
            res@.len() == self.messages().filter(|m: Message<'a>| m.has_snippet()).len(),
            forall|i: int|
                0 <= i < res@.len() ==> {
                    let m = self.messages().filter(|m: Message<'a>| m.has_snippet())[i];
                    let s = m.snippet()->0;
                    &&& (#[trigger] res@[i]).range == ((s.start.0 - extended_start.0) as usize, (
                    s.end.0 - extended_start.0) as usize)
                    &&& res@[i].label@ == m.text()
                    &&& res@[i].level == m.level()
                },
    {
        let ghost pred = |m: Message<'a>| m.has_snippet();
        let mut res: Vec<SourceAnnotation<'a>> = Vec::new();
        let mut i: usize = 0;
        while i < self.messages.len()
            invariant
                pred == (|m: Message<'a>| m.has_snippet()),
                i <= self.messages@.len(),
                forall|k: int|
                    0 <= k < self.messages().len() ==> ((#[trigger] self.messages()[k]).snippet() matches Some(s)
                        ==> extended_start.0 <= s.start.0 && extended_start.0 <= s.end.0),
                res@.len() == self.messages@.take(i as int).filter(pred).len(),
                forall|j: int|
                    0 <= j < res@.len() ==> {
                        let m = self.messages@.take(i as int).filter(pred)[j];
                        let s = m.snippet()->0;
                        &&& (#[trigger] res@[j]).range == ((s.start.0 - extended_start.0) as usize, (
                        s.end.0 - extended_start.0) as usize)
                        &&& res@[j].label@ == m.text()
                        &&& res@[j].level == m.level()
                    },
            decreases self.messages@.len() - i,
        {
            proof {
                assert(self.messages@.take(i + 1) =~= self.messages@.take(i as int).push(self.messages@[i as int]));
                self.messages@.take(i as int).lemma_filter_push(self.messages@[i as int], pred);
            }
            let message = &self.messages[i];
            let ghost prev = res@;
            let ghost filtered = self.messages@.take(i as int).filter(pred);
            match message.snippet {
                Some(s) => {
                    proof {
                        assert(self.messages()[i as int].snippet() == Some(s));
                        assert(self.messages@[i as int].snippet() is Some);
                        assert(pred(self.messages@[i as int]));
                    }
                    res.push(
                        SourceAnnotation {
                            range: (s.start.0 - extended_start.0, s.end.0 - extended_start.0),
                            label: message.message,
                            level: message.level,
                        },
                    );
                },
                None => {
                    proof {
                        assert(self.messages@[i as int].snippet() is None);
                        assert(!pred(self.messages@[i as int]));
                    }
                },
            }
            proof {
                let nf = self.messages@.take(i + 1).filter(pred);
                if pred(self.messages@[i as int]) {
                    assert(nf == filtered.push(self.messages@[i as int]));
                    assert forall|j: int| 0 <= j < res@.len() implies nf[j] == (if j < prev.len() { filtered[j] } else { self.messages@[i as int] }) by {}
                } else {
                    assert(nf == filtered);
                }
            }
            i = i + 1;
        }
        proof {
            assert(self.messages@.take(self.messages@.len() as int) =~= self.messages@);
        }
        res
    }
}

/// A message shown above or below the source: its text and its level.
#[derive(Debug, Clone, Copy)]
pub struct Annotation<'a> {
    pub label: &'a str,
    pub level: Level,
}

/// A titled diagnostic with messages about snippets and footer messages.
#[derive(Debug)]
pub struct Diagnostic<'a> {
    title: Message<'a>,
    children: Vec<SubDiagnostic<'a>>,
    footer: Vec<Message<'a>>,
}

impl<'a> Diagnostic<'a> {
    /// The title.
    pub closed spec fn title(&self) -> Message<'a> {
        self.title
    }

    /// The messages about snippets, in the order they were added.
    pub closed spec fn children(&self) -> Seq<SubDiagnostic<'a>> {
        self.children@
    }

    /// The footer messages, in the order they were added.
    pub closed spec fn footer(&self) -> Seq<Message<'a>> {
        self.footer@
    }

    /// A diagnostic of level `level` titled `title`, with no children and no
    /// footer.
    pub fn new(level: Level, title: &'a str) -> (res: Self)
        ensures
            res.title().level() == level,
            res.title().text() == title@,
            res.title().snippet() is None,
            res.children().len() == 0,
            res.footer().len() == 0,
    {
        Self { title: Message::new(level, title, None), children: Vec::new(), footer: Vec::new() }
    }

    /// Adds `child` after the other children; the diagnostic itself, for
    /// more additions.
    pub fn add_child(&mut self, child: SubDiagnostic<'a>) -> (res: &mut Self)
        ensures
            res.title() == old(self).title(),
            res.children() == old(self).children().push(child),
            res.footer() == old(self).footer(),
            *final(self) == *final(res),
    {
        self.children.push(child);
        self
    }

    /// Adds `footer` after the other footer messages; the diagnostic itself,
    /// for more additions.
    pub fn add_footer(&mut self, footer: Message<'a>) -> (res: &mut Self)
        ensures
            res.title() == old(self).title(),
            res.children() == old(self).children(),
            res.footer() == old(self).footer().push(footer),
            *final(self) == *final(res),
    {
        self.footer.push(footer);
        self
    }

    /// The annotation shown as the title: the title's text and level.
    pub fn title_annotation(&self) -> (res: Annotation<'a>)
        ensures
            res.label@ == self.title().text(),
            res.level == self.title().level(),
    {
        Annotation { label: self.title.message, level: self.title.level }
    }

    /// The annotations shown below the source: one for each footer message,
    /// in order, with its text and level.
    pub fn footer_annotations(&self) -> (res: Vec<Annotation<'a>>)
        ensures
            res@.len() == self.footer().len(),
            forall|i: int|
                0 <= i < res@.len() ==> (#[trigger] res@[i]).label@ == self.footer()[i].text() && res@[i].level
                    == self.footer()[i].level(),
    {
        let mut res: Vec<Annotation<'a>> = Vec::new();
        let mut i: usize = 0;
        while i < self.footer.len()
            invariant
                i <= self.footer@.len(),
                res@.len() == i,
                forall|k: int|
                    0 <= k < i ==> (#[trigger] res@[k]).label@ == self.footer@[k].text() && res@[k].level
                        == self.footer@[k].level(),
            decreases self.footer@.len() - i,
        {
            res.push(Annotation { label: self.footer[i].message, level: self.footer[i].level });
            i = i + 1;
        }
        res
    }
}

} // verus!
