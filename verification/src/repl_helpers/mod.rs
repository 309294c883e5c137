//! The editing side of the REPL: the submission being typed, the keys
//! that edit it, and the history of earlier submissions.

pub mod submission_view;
pub mod text_lines;
pub mod repl_support;
