//! The arguments of the program: whether to show the time taken, and the
//! path of the file to run (none starts the REPL).

use vstd::prelude::*;

use crate::errors::error::{Error, ErrorView};
use crate::errors::error_kind::{ErrorKind, ErrorKindView};
use crate::semantic_analyzer::function::string_eq;

verus! {

/// The arguments as mathematical values: the path, if any, and whether to
/// show the time taken.
pub struct ArgumentsView {
    pub path: Option<Seq<char>>,
    pub show_time: bool,
}

/// What the arguments `args` after index `i` make of `acc`: `-t` and
/// `--show-time` ask for the time taken, the first other argument is the
/// path, and any argument after the path is refused.
pub open spec fn read_arguments(args: Seq<Seq<char>>, i: int, acc: ArgumentsView) -> Result<ArgumentsView, ErrorView>
    decreases args.len() - i,
{
    if i < 0 || i >= args.len() {
        Ok(acc)
    } else if args[i] == "-t"@ || args[i] == "--show-time"@ {
        read_arguments(args, i + 1, ArgumentsView { show_time: true, ..acc })
    } else if acc.path is None {
        read_arguments(args, i + 1, ArgumentsView { path: Some(args[i]), ..acc })
    } else {
        Err(ErrorView { kind: ErrorKindView::UnrecognizedArgument(args[i]), position: None })
    }
}

/// The texts of `args`.
pub open spec fn texts(args: Seq<String>) -> Seq<Seq<char>> {
    args.map_values(|a: String| a@)
}

/// The arguments passed to the program.
#[derive(Debug)]
pub struct Arguments {
    path: Option<String>,
    show_time: bool,
}

impl View for Arguments {
    type V = ArgumentsView;

    closed spec fn view(&self) -> ArgumentsView {
        ArgumentsView {
            path: match self.path {
                Some(p) => Some(p@),
                None => None,
            },
            show_time: self.show_time,
        }
    }
}

impl Arguments {
    /// The arguments of the command line `args`, whose first item is the
    /// program's own name; an unrecognized argument is refused.
    pub fn new(args: &Vec<String>) -> (res: Result<Arguments, Error>)
        ensures
            match res {
                Ok(a) => read_arguments(texts(args@), 1, ArgumentsView { path: None, show_time: false }) == Ok::<
                    ArgumentsView,
                    ErrorView,
                >(a@),
                Err(e) => read_arguments(texts(args@), 1, ArgumentsView { path: None, show_time: false }) == Err::<
                    ArgumentsView,
                    ErrorView,
                >(e@),
            },
    {
        let ghost all = texts(args@);
        let mut arguments = Arguments { path: None, show_time: false };
        let mut i: usize = 1;
        while i < args.len()
            invariant
                1 <= i,
                i <= args@.len() || args@.len() == 0,
                all == texts(args@),
                read_arguments(all, 1, ArgumentsView { path: None, show_time: false }) == read_arguments(
                    all,
                    i as int,
                    arguments@,
                ),
            decreases args@.len() - i,
        {
            let arg = &args[i];
            proof {
                assert(all[i as int] == arg@);
            }
            if string_eq(arg, "-t") || string_eq(arg, "--show-time") {
                arguments.show_time = true;
            } else if arguments.path.is_none() {
                arguments.path = Some(arg.clone());
            } else {
                return Err(Error::message_only(ErrorKind::UnrecognizedArgument(arg.clone())));
            }
            i = i + 1;
        }
        Ok(arguments)
    }

    /// The path given, if any (none starts the REPL).
    pub fn get_path(&self) -> (res: Option<&String>)
        ensures
            match res {
                Some(p) => self@.path == Some(p@),
                None => self@.path is None,
            },
    {
        self.path.as_ref()
    }

    /// Whether the time taken is to be shown.
    pub fn show_time(&self) -> (res: bool)
        ensures
            res == self@.show_time,
    {
        self.show_time
    }
}

/// Whether `w` asks for the time taken.
pub open spec fn is_time_flag(w: Seq<char>) -> bool {
    w == "-t"@ || w == "--show-time"@
}

/// The arguments of `s` that are not `-t` or `--show-time`, in order.
pub open spec fn non_flags(s: Seq<Seq<char>>) -> Seq<Seq<char>> {
    s.filter(|w: Seq<char>| !is_time_flag(w))
}

/// Whether `-t` or `--show-time` is among `s`.
pub open spec fn has_time_flag(s: Seq<Seq<char>>) -> bool {
    exists|j: int| 0 <= j < s.len() && is_time_flag(#[trigger] s[j])
}

/// The arguments from index `i` on.
pub open spec fn from_index(args: Seq<Seq<char>>, i: int) -> Seq<Seq<char>> {
    if 0 <= i <= args.len() {
        args.subrange(i, args.len() as int)
    } else {
        Seq::empty()
    }
}

/// Reading the arguments from index `i` on into `acc` (see
/// `lemma_arguments_read`): with no path yet, the one argument other than
/// the time flag is the path and a second one is refused; with a path,
/// the first such argument is refused. The time flag counts wherever it
/// stands.
proof fn lemma_read_from(args: Seq<Seq<char>>, i: int, acc: ArgumentsView)
    requires
        0 <= i <= args.len(),
    ensures
        ({
            let rest = from_index(args, i);
            let others = non_flags(rest);
            let flagged = acc.show_time || has_time_flag(rest);
            &&& acc.path is None && others.len() <= 1 ==> read_arguments(args, i, acc) == Ok::<ArgumentsView, ErrorView>(
                ArgumentsView { path: if others.len() == 1 { Some(others[0]) } else { None }, show_time: flagged },
            )
            &&& acc.path is None && others.len() >= 2 ==> read_arguments(args, i, acc) == Err::<ArgumentsView, ErrorView>(
                ErrorView { kind: ErrorKindView::UnrecognizedArgument(others[1]), position: None },
            )
            &&& acc.path is Some && others.len() == 0 ==> read_arguments(args, i, acc) == Ok::<ArgumentsView, ErrorView>(
                ArgumentsView { path: acc.path, show_time: flagged },
            )
            &&& acc.path is Some && others.len() >= 1 ==> read_arguments(args, i, acc) == Err::<ArgumentsView, ErrorView>(
                ErrorView { kind: ErrorKindView::UnrecognizedArgument(others[0]), position: None },
            )
        }),
    decreases args.len() - i,
{
    let rest = from_index(args, i);
    if i == args.len() {
        assert(rest =~= Seq::<Seq<char>>::empty());
        assert(non_flags(rest) =~= Seq::<Seq<char>>::empty());
        assert(!has_time_flag(rest));
    } else {
        let tail = from_index(args, i + 1);
        assert(rest =~= seq![args[i]] + tail);
        tail.lemma_filter_prepend(args[i], |w: Seq<char>| !is_time_flag(w));
        assert(has_time_flag(rest) == (is_time_flag(args[i]) || has_time_flag(tail))) by {
            if is_time_flag(args[i]) {
                assert(is_time_flag(rest[0]));
            }
            if has_time_flag(tail) {
                let j = choose|j: int| 0 <= j < tail.len() && is_time_flag(#[trigger] tail[j]);
                assert(rest[j + 1] == tail[j]);
            }
            if has_time_flag(rest) {
                let j = choose|j: int| 0 <= j < rest.len() && is_time_flag(#[trigger] rest[j]);
                if j > 0 {
                    assert(tail[j - 1] == rest[j]);
                }
            }
        }
        if is_time_flag(args[i]) {
            lemma_read_from(args, i + 1, ArgumentsView { show_time: true, ..acc });
            assert(non_flags(rest) =~= non_flags(tail));
        } else if acc.path is None {
            lemma_read_from(args, i + 1, ArgumentsView { path: Some(args[i]), ..acc });
            assert(non_flags(rest) =~= seq![args[i]] + non_flags(tail));
        } else {
            assert(non_flags(rest) =~= seq![args[i]] + non_flags(tail));
        }
    }
}

/// How a command line is read, whatever the order of its arguments: `-t`
/// and `--show-time` ask for the time taken wherever they stand, before or
/// after the path; the one other argument after the program's name is the
/// path (none starts the REPL); a second such argument is refused, by name.
pub proof fn lemma_arguments_read(args: Seq<Seq<char>>)
    ensures
        ({
            let given = from_index(args, 1);
            let others = non_flags(given);
            let read = read_arguments(args, 1, ArgumentsView { path: None, show_time: false });
            &&& others.len() <= 1 ==> read == Ok::<ArgumentsView, ErrorView>(
                ArgumentsView {
                    path: if others.len() == 1 { Some(others[0]) } else { None },
                    show_time: has_time_flag(given),
                },
            )
            &&& others.len() >= 2 ==> read == Err::<ArgumentsView, ErrorView>(
                ErrorView { kind: ErrorKindView::UnrecognizedArgument(others[1]), position: None },
            )
        }),
{
    if args.len() >= 1 {
        lemma_read_from(args, 1, ArgumentsView { path: None, show_time: false });
    } else {
        assert(from_index(args, 1) =~= Seq::<Seq<char>>::empty());
        assert(non_flags(from_index(args, 1)) =~= Seq::<Seq<char>>::empty());
    }
}

} // verus!
