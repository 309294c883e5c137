//! An error with an optional position, and its rendering against the input
//! it was found in.

use vstd::prelude::*;

use crate::errors::error_kind::{ErrorKind, ErrorKindView};
use crate::text::{chars_of, nat_digits, push_char, push_str, usize_text};

verus! {

/// An error of some kind, at a position of the input (counted from one) or
/// at none.
#[derive(Debug)]
pub struct Error {
    kind: ErrorKind,
    position: Option<usize>,
}

/// An error with the texts of its kind as sequences of characters.
pub struct ErrorView {
    pub kind: ErrorKindView,
    pub position: Option<usize>,
}

impl View for Error {
    type V = ErrorView;

    closed spec fn view(&self) -> ErrorView {
        ErrorView { kind: self.kind@, position: self.position }
    }
}

/// The line and column reached after reading the first `n` characters of
/// `chars`, starting at line one, column zero: a newline moves to the next
/// line's column zero, any other character one column on.
pub open spec fn line_col_after(chars: Seq<char>, n: int) -> (int, int)
    decreases n,
{
    if n <= 0 {
        (1, 0)
    } else {
        let (l, c) = line_col_after(chars, n - 1);
        if chars[n - 1] == '\n' {
            (l + 1, 0)
        } else {
            (l, c + 1)
        }
    }
}

/// The line and column of position `position` (counted from one) in `input`:
/// those reached after reading up to that character, or the whole input if
/// it is shorter.
pub open spec fn line_column_info(input: Seq<char>, position: int) -> (int, int) {
    line_col_after(input, if position < input.len() { position } else { input.len() as int })
}

/// The pieces of `s` between newlines (one more than there are newlines).
pub open spec fn split_pieces(s: Seq<char>) -> Seq<Seq<char>>
    decreases s.len(),
{
    if s.len() == 0 {
        seq![Seq::empty()]
    } else {
        let p = split_pieces(s.drop_last());
        if s.last() == '\n' {
            p.push(Seq::empty())
        } else {
            p.update(p.len() - 1, p.last().push(s.last()))
        }
    }
}

/// The lines of `s` as `str::split_terminator('\n')` gives them: the pieces
/// between newlines, without a last piece that is empty.
pub open spec fn terminated_lines(s: Seq<char>) -> Seq<Seq<char>> {
    let p = split_pieces(s);
    if p.last().len() == 0 {
        p.drop_last()
    } else {
        p
    }
}

/// `n` spaces.
pub open spec fn spaces(n: int) -> Seq<char> {
    Seq::new(n as nat, |i: int| ' ')
}

/// The text of an error whose message is `message`, found at `position` of
/// `input`: the line of the input with a caret under the column, or, when
/// the input has no such line, the line and column in words; with no
/// position, the message alone.
pub open spec fn prettified(message: Seq<char>, position: Option<usize>, input: Seq<char>) -> Seq<char> {
    match position {
        None => "An Error Occurred.\n"@ + message,
        Some(p) => {
            let (line_number, column_number) = line_column_info(input, p as int);
            let lines = terminated_lines(input);
            let ln = nat_digits(line_number as nat);
            if 0 <= line_number - 1 < lines.len() {
                spaces(ln.len() as int) + " |\n"@ + ln + " | "@ + lines[line_number - 1] + "\n"@ + spaces(
                    ln.len() as int,
                ) + " | "@ + spaces(column_number - 1) + "^-- "@ + message + "\n"@
            } else {
                "An Error Occurred On Line "@ + ln + " And Column "@ + nat_digits(column_number as nat) + ".\n"@
                    + message
            }
        },
    }
}

/// The rendering of an error at `position` of `input` does not need a column
/// before the first: it has a position of at least one, and the column it
/// points at is past zero whenever its line is shown.
pub open spec fn can_prettify(position: Option<usize>, input: Seq<char>) -> bool {
    match position {
        None => true,
        Some(p) => {
            let (line_number, column_number) = line_column_info(input, p as int);
            &&& p >= 1
            &&& (0 <= line_number - 1 < terminated_lines(input).len() ==> column_number >= 1)
        },
    }
}

proof fn lemma_line_col_bounds(chars: Seq<char>, n: int)
    requires
        0 <= n <= chars.len(),
    ensures
        ({
            let (l, c) = line_col_after(chars, n);
            1 <= l <= n + 1 && 0 <= c <= n
        }),
    decreases n,
{
    if n > 0 {
        lemma_line_col_bounds(chars, n - 1);
    }
}

proof fn lemma_split_pieces_nonempty(s: Seq<char>)
    ensures
        split_pieces(s).len() >= 1,
    decreases s.len(),
{
    if s.len() > 0 {
        lemma_split_pieces_nonempty(s.drop_last());
    }
}

impl Error {
    /// The kind of the error.
    pub closed spec fn kind(&self) -> ErrorKind {
        self.kind
    }

    /// The position of the error, if it has one.
    pub closed spec fn position(&self) -> Option<usize> {
        self.position
    }

    /// The error `kind` at `position`.
    pub fn new(kind: ErrorKind, position: usize) -> (res: Error)
        ensures
            res.kind() == kind,
            res.position() == Some(position),
            res@ == (ErrorView { kind: kind@, position: Some(position) }),
    {
        Error { kind, position: Some(position) }
    }

    /// The error `kind`, at no position.
    pub fn message_only(kind: ErrorKind) -> (res: Error)
        ensures
            res.kind() == kind,
            res.position() is None,
            res@ == (ErrorView { kind: kind@, position: None }),
    {
        Error { kind, position: None }
    }

    /// The error shown against `input`: the line it is on, with an arrow
    /// under its column and the message; or, if that line is not in the
    /// input, its line and column in words and the message; or, without a
    /// position, the message alone.
    pub fn prettify(self, input: &str) -> (res: String)
        requires
            self.kind().has_message(),
            can_prettify(self.position(), input@),
            input@.len() < usize::MAX,
        ensures
            res@ == prettified(self.kind().message(), self.position(), input@),
    {
        match self.position {
            Some(position) => {
                let chars = chars_of(input);
                let (line_number, column_number) = self.get_line_column_info(&chars);
                proof {
                    let n = if position < input@.len() { position as int } else { input@.len() as int };
                    lemma_line_col_bounds(input@, n);
                }
                let lines = terminated_lines_of(&chars);
                let line_text = usize_text(line_number);
                let error_message = self.kind.into_string();
                let mut res = String::new();
                if line_number - 1 < lines.len() {
                    let len = line_text.as_str().unicode_len();
                    push_spaces(&mut res, len);
                    push_str(&mut res, " |\n");
                    push_str(&mut res, line_text.as_str());
                    push_str(&mut res, " | ");
                    push_chars(&mut res, &lines[line_number - 1]);
                    push_str(&mut res, "\n");
                    push_spaces(&mut res, len);
                    push_str(&mut res, " | ");
                    push_spaces(&mut res, column_number - 1);
                    push_str(&mut res, "^-- ");
                    push_str(&mut res, error_message.as_str());
                    push_str(&mut res, "\n");
                } else {
                    let column_text = usize_text(column_number);
                    push_str(&mut res, "An Error Occurred On Line ");
                    push_str(&mut res, line_text.as_str());
                    push_str(&mut res, " And Column ");
                    push_str(&mut res, column_text.as_str());
                    push_str(&mut res, ".\n");
                    push_str(&mut res, error_message.as_str());
                }
                proof {
                    assert(res@ =~= prettified(self.kind().message(), self.position(), input@));
                }
                res
            },
            None => {
                let error_message = self.kind.into_string();
                let mut res = String::new();
                push_str(&mut res, "An Error Occurred.\n");
                push_str(&mut res, error_message.as_str());
                res
            },
        }
    }

    /// The line and column of the error's position in `input`.
    fn get_line_column_info(&self, input: &Vec<char>) -> (res: (usize, usize))
        requires
            self.position() matches Some(p) && p >= 1,
            input@.len() < usize::MAX,
        ensures
            res.0 as int == line_column_info(input@, self.position()->0 as int).0,
            res.1 as int == line_column_info(input@, self.position()->0 as int).1,
    {
        let position = match self.position {
            Some(p) => p,
            None => 0,
        };
        let n = if position < input.len() { position } else { input.len() };
        let mut line_number: usize = 1;
        let mut column_number: usize = 0;
        let mut idx: usize = 0;
        while idx < n
            invariant
                n <= input@.len(),
                input@.len() < usize::MAX,
                idx <= n,
                (line_number as int, column_number as int) == line_col_after(input@, idx as int),
            decreases n - idx,
        {
            proof {
                lemma_line_col_bounds(input@, idx as int);
            }
            if input[idx] == '\n' {
                line_number = line_number + 1;
                column_number = 0;
            } else {
                column_number = column_number + 1;
            }
            idx = idx + 1;
        }
        (line_number, column_number)
    }
}

/// The lines of `chars` as `split_terminator('\n')` gives them.
fn terminated_lines_of(chars: &Vec<char>) -> (res: Vec<Vec<char>>)
    ensures
        res@.len() == terminated_lines(chars@).len(),
        forall|i: int| 0 <= i < res@.len() ==> (#[trigger] res@[i])@ == terminated_lines(chars@)[i],
{
    let mut pieces: Vec<Vec<char>> = Vec::new();
    pieces.push(Vec::new());
    proof {
        assert(chars@.subrange(0, 0) =~= Seq::<char>::empty());
    }
    let mut i: usize = 0;
    while i < chars.len()
        invariant
            i <= chars@.len(),
            pieces@.len() == split_pieces(chars@.subrange(0, i as int)).len(),
            forall|k: int|
                0 <= k < pieces@.len() ==> (#[trigger] pieces@[k])@ == split_pieces(chars@.subrange(0, i as int))[k],
        decreases chars@.len() - i,
    {
        let ghost before = chars@.subrange(0, i as int);
        proof {
            assert(chars@.subrange(0, i + 1).drop_last() =~= before);
            lemma_split_pieces_nonempty(before);
        }
        let c = chars[i];
        if c == '\n' {
            pieces.push(Vec::new());
        } else {
            let last = pieces.len() - 1;
            let mut piece = pieces.remove(last);
            piece.push(c);
            pieces.push(piece);
        }
        i = i + 1;
        proof {
            let p = split_pieces(before);
            assert forall|k: int| 0 <= k < pieces@.len() implies (#[trigger] pieces@[k])@ == split_pieces(
                chars@.subrange(0, i as int),
            )[k] by {}
        }
    }
    proof {
        assert(chars@.subrange(0, chars@.len() as int) =~= chars@);
        lemma_split_pieces_nonempty(chars@);
    }
    let last = pieces.len() - 1;
    if pieces[last].len() == 0 {
        pieces.pop();
    }
    pieces
}

/// Appends `n` spaces to `s`.
fn push_spaces(s: &mut String, n: usize)
    ensures
        final(s)@ == old(s)@ + spaces(n as int),
{
    let mut i: usize = 0;
    while i < n
        invariant
            i <= n,
            s@ == old(s)@ + spaces(i as int),
        decreases n - i,
    {
        push_char(s, ' ');
        i = i + 1;
        proof {
            assert(s@ =~= old(s)@ + spaces(i as int));
        }
    }
}

/// Appends the characters of `chars` to `s`.
fn push_chars(s: &mut String, chars: &Vec<char>)
    ensures
        final(s)@ == old(s)@ + chars@,
{
    let mut i: usize = 0;
    while i < chars.len()
        invariant
            i <= chars@.len(),
            s@ == old(s)@ + chars@.subrange(0, i as int),
        decreases chars@.len() - i,
    {
        push_char(s, chars[i]);
        i = i + 1;
        proof {
            assert(s@ =~= old(s)@ + chars@.subrange(0, i as int));
        }
    }
    proof {
        assert(chars@.subrange(0, chars@.len() as int) =~= chars@);
    }
}

} // verus!
