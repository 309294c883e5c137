//! Diagnostics with several messages, a snippet and footer messages.

use vstd::prelude::*;

use crate::source::snippet::Snippet;

verus! {

/// The text of a diagnostic message.
pub type DiagnosticMessage = String;

/// How serious a diagnostic is.
#[derive(Debug, Clone, Copy, PartialEq, Eq, Structural)]
pub enum Level {
    Error,
    Warning,
    Hint,
}

/// Messages about a snippet of source.
#[derive(Debug)]
pub struct SubDiagnostic {
    level: Level,
    message: Vec<DiagnosticMessage>,
    snippet: Snippet,
}

/// A message shown below a diagnostic.
#[derive(Debug)]
pub struct FooterMessage {
    level: Level,
    message: DiagnosticMessage,
}

impl FooterMessage {
    /// The level of the message.
    pub closed spec fn level(&self) -> Level {
        self.level
    }

    /// The text of the message.
    pub closed spec fn message(&self) -> Seq<char> {
        self.message@
    }

    /// The footer message `message` of level `level`.
    pub fn new(level: Level, message: DiagnosticMessage) -> (res: Self)
        ensures
            res.level() == level,
            res.message() == message@,
    {
        Self { level, message }
    }
}

/// A diagnostic: level, messages, the snippet it is about, and footer messages.
#[derive(Debug)]
pub struct Diagnostic {
    level: Level,
    messages: Vec<DiagnosticMessage>,
    snippet: Snippet,
    children: Vec<SubDiagnostic>,
    footer: Vec<FooterMessage>,
}

impl Diagnostic {
    /// The level.
    pub closed spec fn level(&self) -> Level {
        self.level
    }

    /// The messages, in order.
    pub closed spec fn messages(&self) -> Seq<Seq<char>> {
        self.messages@.map_values(|m: DiagnosticMessage| m@)
    }

    /// The snippet the diagnostic is about.
    pub closed spec fn snippet(&self) -> Snippet {
        self.snippet
    }

    /// The messages about other snippets, in order.
    pub closed spec fn children(&self) -> Seq<SubDiagnostic> {
        self.children@
    }

    /// The number of messages about other snippets.
    pub closed spec fn child_count(&self) -> nat {
        self.children@.len()
    }

    /// The footer messages as (level, text), in the order they were added.
    pub closed spec fn footer(&self) -> Seq<(Level, Seq<char>)> {
        self.footer@.map_values(|f: FooterMessage| (f.level, f.message@))
    }

    /// A diagnostic of level `level` with the messages `messages` about
    /// `snippet`, with no footer.
    pub fn new(level: Level, messages: Vec<DiagnosticMessage>, snippet: Snippet) -> (res: Self)
        ensures
            res.level() == level,
            res.messages() == messages@.map_values(|m: DiagnosticMessage| m@),
            res.snippet() == snippet,
            res.child_count() == 0,
            res.children() == Seq::<SubDiagnostic>::empty(),
            res.footer().len() == 0,
    {
        Self { level, messages, snippet, children: Vec::new(), footer: Vec::new() }
    }

    /// The diagnostic with the footer message `message` of level `level`
    /// added after the others.
    pub fn add_footer(self, level: Level, message: DiagnosticMessage) -> (res: Self)
        ensures
            res.level() == self.level(),
            res.messages() == self.messages(),
            res.snippet() == self.snippet(),
            res.child_count() == self.child_count(),
            res.children() == self.children(),
            res.footer() == self.footer().push((level, message@)),
    {
        let mut this = self;
        this.footer.push(FooterMessage::new(level, message));
        proof {
            assert(this.footer() =~= self.footer().push((level, message@)));
        }
        this
    }
}

} // verus!
