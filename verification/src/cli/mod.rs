//! What the program does with its arguments: start the REPL, run an
//! Envious file, or refuse; and the messages it prints.

pub mod arguments;

use vstd::prelude::*;

use crate::cli::arguments::Arguments;
use crate::text::{nat_digits, push_str, usize_text};

verus! {

/// What the program is to do.
#[derive(Debug)]
pub enum RunTarget {
    /// Start the REPL: no path was given.
    Repl,
    /// Run the Envious file at this path.
    File(String),
    /// Stop with this message.
    Refuse(String),
}

/// `s` ends with `suffix`.
pub open spec fn has_suffix(s: Seq<char>, suffix: Seq<char>) -> bool {
    s.len() >= suffix.len() && s.subrange(s.len() - suffix.len(), s.len() as int) == suffix
}

/// Whether `s` ends with `suffix`.
pub fn ends_with(s: &str, suffix: &str) -> (res: bool)
    ensures
        res == has_suffix(s@, suffix@),
{
    let n = s.unicode_len();
    let m = suffix.unicode_len();
    if m > n {
        return false;
    }
    let mut i: usize = 0;
    while i < m
        invariant
            n == s@.len(),
            m == suffix@.len(),
            m <= n,
            i <= m,
            forall|k: int| 0 <= k < i ==> s@[n - m + k] == suffix@[k],
        decreases m - i,
    {
        if s.get_char(n - m + i) != suffix.get_char(i) {
            proof {
                assert(s@.subrange(n - m, n as int)[i as int] != suffix@[i as int]);
            }
            return false;
        }
        i = i + 1;
    }
    proof {
        assert(s@.subrange(n - m, n as int) =~= suffix@);
    }
    true
}

/// The message of an error of the program: a first line that says one
/// occurred, then `error_message`.
pub open spec fn error_text(error_message: Seq<char>) -> Seq<char> {
    "An Error Occurred.\n"@ + error_message
}

/// The error `error_message` as the program reports it.
pub fn generate_error(error_message: &str) -> (res: Result<(), String>)
    ensures
        res matches Err(e) && e@ == error_text(error_message@),
{
    let mut text = String::new();
    push_str(&mut text, "An Error Occurred.\n");
    push_str(&mut text, error_message);
    Err(text)
}

/// What the arguments ask for: the REPL when no path was given, the file at
/// the path when it ends with `.envy`, and a refusal otherwise.
pub fn run_target(args: &Arguments) -> (res: RunTarget)
    ensures
        match args@.path {
            None => res is Repl,
            Some(p) => if has_suffix(p, ".envy"@) {
                res matches RunTarget::File(f) && f@ == p
            } else {
                res matches RunTarget::Refuse(m) && m@ == error_text("Expected The File Passed In To Be An Envious File."@)
            },
        },
{
    match args.get_path() {
        None => RunTarget::Repl,
        Some(path) => if ends_with(path.as_str(), ".envy") {
            RunTarget::File(path.clone())
        } else {
            match generate_error("Expected The File Passed In To Be An Envious File.") {
                Err(message) => RunTarget::Refuse(message),
                Ok(()) => RunTarget::Repl,
            }
        },
    }
}

/// `base_form` for a count of one, `plural_form` for any other count.
pub fn pluralize<'a>(base_form: &'a str, plural_form: &'a str, count: usize) -> (res: &'a str)
    ensures
        res == if count == 1 { base_form } else { plural_form },
{
    if count == 1 {
        base_form
    } else {
        plural_form
    }
}

/// The last line printed after parsing: how many errors and warnings were
/// reported, each word in the form its count calls for.
pub open spec fn finished_text(error_count: usize, warning_count: usize) -> Seq<char> {
    "\nfinished with "@ + nat_digits(error_count as nat) + " "@ + (if error_count == 1 { "error"@ } else { "errors"@ })
        + " and "@ + nat_digits(warning_count as nat) + " "@ + (if warning_count == 1 { "warning"@ } else { "warnings"@ })
}

/// The last line printed after parsing.
pub fn finished_message(error_count: usize, warning_count: usize) -> (res: String)
    ensures
        res@ == finished_text(error_count, warning_count),
{
    let mut text = String::new();
    push_str(&mut text, "\nfinished with ");
    let errors = usize_text(error_count);
    push_str(&mut text, errors.as_str());
    push_str(&mut text, " ");
    push_str(&mut text, pluralize("error", "errors", error_count));
    push_str(&mut text, " and ");
    let warnings = usize_text(warning_count);
    push_str(&mut text, warnings.as_str());
    push_str(&mut text, " ");
    push_str(&mut text, pluralize("warning", "warnings", warning_count));
    proof {
        assert(text@ =~= finished_text(error_count, warning_count));
    }
    text
}

} // verus!
