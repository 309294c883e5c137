//! The kinds of errors, each with its message.

use vstd::prelude::*;

use crate::text::push_str;

verus! {

/// What went wrong.
#[derive(Debug)]
pub enum ErrorKind {
    SystemError(String),
    UnrecognizedArgument(String),
    UnknownCharacter,
    InvalidNumberFormat,
    UnterminatedString,
    TypeMismatch(String, String),
    Expected(String),
    UnknownFunction,
    WrongNumberOfParameters,
    UnsupportedOperation(String, Vec<String>),
}

/// An error kind with its texts as sequences of characters.
pub enum ErrorKindView {
    SystemError(Seq<char>),
    UnrecognizedArgument(Seq<char>),
    UnknownCharacter,
    InvalidNumberFormat,
    UnterminatedString,
    TypeMismatch(Seq<char>, Seq<char>),
    Expected(Seq<char>),
    UnknownFunction,
    WrongNumberOfParameters,
    UnsupportedOperation(Seq<char>, Seq<Seq<char>>),
}

impl View for ErrorKind {
    type V = ErrorKindView;

    open spec fn view(&self) -> ErrorKindView {
        match self {
            ErrorKind::SystemError(e) => ErrorKindView::SystemError(e@),
            ErrorKind::UnrecognizedArgument(a) => ErrorKindView::UnrecognizedArgument(a@),
            ErrorKind::UnknownCharacter => ErrorKindView::UnknownCharacter,
            ErrorKind::InvalidNumberFormat => ErrorKindView::InvalidNumberFormat,
            ErrorKind::UnterminatedString => ErrorKindView::UnterminatedString,
            ErrorKind::TypeMismatch(e, a) => ErrorKindView::TypeMismatch(e@, a@),
            ErrorKind::Expected(e) => ErrorKindView::Expected(e@),
            ErrorKind::UnknownFunction => ErrorKindView::UnknownFunction,
            ErrorKind::WrongNumberOfParameters => ErrorKindView::WrongNumberOfParameters,
            ErrorKind::UnsupportedOperation(o, args) => ErrorKindView::UnsupportedOperation(
                o@,
                args@.map_values(|a: String| a@),
            ),
        }
    }
}

/// `args` written as a list: all but the last two followed by `, `, then
/// the second-to-last, ` And `, and the last.
pub open spec fn argument_list(args: Seq<Seq<char>>) -> Seq<char>
    recommends
        args.len() >= 2,
{
    args.subrange(0, args.len() - 2).fold_left(Seq::<char>::empty(), |acc: Seq<char>, a: Seq<char>| acc + a + ", "@)
        + args[args.len() - 2] + " And "@ + args[args.len() - 1]
}

impl ErrorKind {
    /// The kind can be turned into a message: an unsupported operation names
    /// at least two operands.
    pub open spec fn has_message(&self) -> bool {
        match self {
            ErrorKind::UnsupportedOperation(_, args) => args@.len() >= 2,
            _ => true,
        }
    }

    /// The message of the kind.
    pub open spec fn message(&self) -> Seq<char> {
        match self {
            ErrorKind::SystemError(error) => error@,
            ErrorKind::UnrecognizedArgument(arg) => "The Argument '"@ + arg@ + "' Is Not A Valid Argument."@,
            ErrorKind::UnknownCharacter => "Unknown Character Found Here."@,
            ErrorKind::InvalidNumberFormat => "Invalid Number Format."@,
            ErrorKind::UnterminatedString => "Expected The End Of This String."@,
            ErrorKind::TypeMismatch(expected, actual) => "Expected "@ + expected@ + ", But Found "@ + actual@ + "."@,
            ErrorKind::Expected(expected) => "Expected "@ + expected@ + " After Here."@,
            ErrorKind::UnknownFunction => "Unknown Function Called Here."@,
            ErrorKind::WrongNumberOfParameters => "The Wrong Number Of Parameters Were Supplied To This Function."@,
            ErrorKind::UnsupportedOperation(operation, arguments) => "The Operation '"@ + operation@
                + "' Can Not Be Applied To "@ + argument_list(arguments@.map_values(|a: String| a@)) + "."@,
        }
    }

    /// The message of the kind (`Into<String>`).
    pub fn into_string(self) -> (res: String)
        requires
            self.has_message(),
        ensures
            res@ == self.message(),
    {
        match self {
            ErrorKind::SystemError(error) => error,
            ErrorKind::UnrecognizedArgument(arg) => {
                let mut res = String::new();
                push_str(&mut res, "The Argument '");
                push_str(&mut res, arg.as_str());
                push_str(&mut res, "' Is Not A Valid Argument.");
                res
            },
            ErrorKind::UnknownCharacter => "Unknown Character Found Here.".to_owned(),
            ErrorKind::InvalidNumberFormat => "Invalid Number Format.".to_owned(),
            ErrorKind::UnterminatedString => "Expected The End Of This String.".to_owned(),
            ErrorKind::TypeMismatch(expected, actual) => {
                let mut res = String::new();
                push_str(&mut res, "Expected ");
                push_str(&mut res, expected.as_str());
                push_str(&mut res, ", But Found ");
                push_str(&mut res, actual.as_str());
                push_str(&mut res, ".");
                res
            },
            ErrorKind::Expected(expected) => {
                let mut res = String::new();
                push_str(&mut res, "Expected ");
                push_str(&mut res, expected.as_str());
                push_str(&mut res, " After Here.");
                res
            },
            ErrorKind::UnknownFunction => "Unknown Function Called Here.".to_owned(),
            ErrorKind::WrongNumberOfParameters => "The Wrong Number Of Parameters Were Supplied To This Function.".to_owned(),
            ErrorKind::UnsupportedOperation(operation, arguments) => {
                let ghost args = arguments@.map_values(|a: String| a@);
                let n = arguments.len();
                let mut concated_args = String::new();
                let mut i: usize = 0;
                while i < n - 2
                    invariant
                        n == arguments@.len(),
                        n >= 2,
                        i <= n - 2,
                        args == arguments@.map_values(|a: String| a@),
                        concated_args@ == args.subrange(0, i as int).fold_left(
                            Seq::<char>::empty(),
                            |acc: Seq<char>, a: Seq<char>| acc + a + ", "@,
                        ),
                    decreases n - 2 - i,
                {
                    push_str(&mut concated_args, arguments[i].as_str());
                    push_str(&mut concated_args, ", ");
                    proof {
                        let f = |acc: Seq<char>, a: Seq<char>| acc + a + ", "@;
                        assert(args.subrange(0, i + 1).drop_last() =~= args.subrange(0, i as int));
                        assert(args.subrange(0, i + 1).last() == args[i as int]);
                    }
                    i = i + 1;
                }
                push_str(&mut concated_args, arguments[n - 2].as_str());
                push_str(&mut concated_args, " And ");
                push_str(&mut concated_args, arguments[n - 1].as_str());
                let mut res = String::new();
                push_str(&mut res, "The Operation '");
                push_str(&mut res, operation.as_str());
                push_str(&mut res, "' Can Not Be Applied To ");
                push_str(&mut res, concated_args.as_str());
                push_str(&mut res, ".");
                proof {
                    assert(res@ =~= self.message());
                }
                res
            },
        }
    }
}

} // verus!
