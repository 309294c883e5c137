//! Character classification and string building shared by the lexers,
//! the code generator and the error renderers.

use vstd::prelude::*;
use vstd::string::*;

verus! {

/// `c` is one of the ASCII decimal digits `0` through `9`.
pub open spec fn is_ascii_digit_spec(c: char) -> bool {
    '0' <= c && c <= '9'
}

/// Decides whether `c` is an ASCII decimal digit.
pub fn is_ascii_digit(c: char) -> (res: bool)
    ensures
        res == is_ascii_digit_spec(c),
{
    '0' <= c && c <= '9'
}

/// `c` is one of the ASCII whitespace characters that Unicode also counts
/// as white space: tab, line feed, vertical tab, form feed, carriage return
/// and space.
pub open spec fn is_ascii_white_space_property(c: char) -> bool {
    c == '\t' || c == '\n' || c == '\x0B' || c == '\x0C' || c == '\r' || c == ' '
}

/// `c` is an ASCII letter.
pub open spec fn is_ascii_letter(c: char) -> bool {
    ('a' <= c && c <= 'z') || ('A' <= c && c <= 'Z')
}

/// Whether `c` has the Unicode `White_Space` property (`char::is_whitespace`).
pub uninterp spec fn char_is_whitespace(c: char) -> bool;

/// Whether `c` has the Unicode `Alphabetic` property (`char::is_alphabetic`).
pub uninterp spec fn char_is_alphabetic(c: char) -> bool;

/// Whether `c` is alphabetic or numeric in Unicode (`char::is_alphanumeric`).
pub uninterp spec fn char_is_alphanumeric(c: char) -> bool;

/// `c` is an ASCII character.
pub open spec fn is_ascii_char(c: char) -> bool {
    (c as u32) < 128
}

/// Whether `c` is white space: on ASCII, tab, line feed, vertical tab, form
/// feed, carriage return and space.
pub open spec fn whitespace_spec(c: char) -> bool {
    if is_ascii_char(c) {
        is_ascii_white_space_property(c)
    } else {
        char_is_whitespace(c)
    }
}

/// Whether `c` is alphabetic: on ASCII, the letters.
pub open spec fn alphabetic_spec(c: char) -> bool {
    if is_ascii_char(c) {
        is_ascii_letter(c)
    } else {
        char_is_alphabetic(c)
    }
}

/// Whether `c` is alphanumeric: on ASCII, the letters and digits.
pub open spec fn alphanumeric_spec(c: char) -> bool {
    if is_ascii_char(c) {
        is_ascii_letter(c) || is_ascii_digit_spec(c)
    } else {
        char_is_alphanumeric(c)
    }
}

/// Whether `c` has the Unicode `White_Space` property (`char::is_whitespace`).
/// On ASCII characters that is exactly tab, line feed, vertical tab, form
/// feed, carriage return and space; which other characters have it is left
/// to the name `char_is_whitespace`.
#[verifier::external_body]
pub(crate) fn is_whitespace(c: char) -> (res: bool)
    ensures
        res == whitespace_spec(c),
        !is_ascii_char(c) ==> res == char_is_whitespace(c),
{
    c.is_whitespace()
}

/// Whether `c` has the Unicode `Alphabetic` property (`char::is_alphabetic`).
/// On ASCII characters that is exactly the letters; which other characters
/// have it is left to the name `char_is_alphabetic`.
#[verifier::external_body]
pub(crate) fn is_alphabetic(c: char) -> (res: bool)
    ensures
        res == alphabetic_spec(c),
        !is_ascii_char(c) ==> res == char_is_alphabetic(c),
{
    c.is_alphabetic()
}

/// Whether `c` is alphabetic or numeric in Unicode (`char::is_alphanumeric`).
/// On ASCII characters that is exactly the letters and the digits; which
/// other characters are is left to the name `char_is_alphanumeric`.
#[verifier::external_body]
pub(crate) fn is_alphanumeric(c: char) -> (res: bool)
    ensures
        res == alphanumeric_spec(c),
        !is_ascii_char(c) ==> res == char_is_alphanumeric(c),
{
    c.is_alphanumeric()
}

/// A text has at least as many bytes as characters.
pub proof fn lemma_bytes_at_least_chars(chars: Seq<char>)
    ensures
        vstd::utf8::encode_utf8(chars).len() >= chars.len(),
    decreases chars.len(),
{
    if chars.len() > 0 {
        lemma_bytes_at_least_chars(chars.drop_first());
    }
}

/// The characters of `s`, in order.
pub fn chars_of(s: &str) -> (res: Vec<char>)
    ensures
        res@ == s@,
{
    let n = s.unicode_len();
    let mut res: Vec<char> = Vec::new();
    let mut i: usize = 0;
    while i < n
        invariant
            n == s@.len(),
            i <= n,
            res@ == s@.subrange(0, i as int),
        decreases n - i,
    {
        res.push(s.get_char(i));
        i = i + 1;
        proof {
            assert(res@ =~= s@.subrange(0, i as int));
        }
    }
    proof {
        assert(s@.subrange(0, n as int) =~= s@);
    }
    res
}

/// Whether the characters of `chars` from `from` to `to` spell `word`.
pub fn chars_match(chars: &Vec<char>, from: usize, to: usize, word: &str) -> (res: bool)
    requires
        from <= to <= chars@.len(),
    ensures
        res == (chars@.subrange(from as int, to as int) == word@),
{
    let n = word.unicode_len();
    if to - from != n {
        proof {
            assert(chars@.subrange(from as int, to as int).len() != word@.len());
        }
        return false;
    }
    let mut i: usize = 0;
    while i < n
        invariant
            n == word@.len(),
            to - from == n,
            from <= to <= chars@.len(),
            i <= n,
            forall|k: int| 0 <= k < i ==> chars@[from + k] == word@[k],
        decreases n - i,
    {
        if chars[from + i] != word.get_char(i) {
            proof {
                assert(chars@.subrange(from as int, to as int)[i as int] != word@[i as int]);
            }
            return false;
        }
        i = i + 1;
    }
    proof {
        assert(chars@.subrange(from as int, to as int) =~= word@);
    }
    true
}

/// The value of the decimal digit `c`.
pub open spec fn digit_value(c: char) -> int {
    (c as int) - ('0' as int)
}

/// The character that writes the decimal digit `d`.
pub open spec fn digit_char(d: int) -> char {
    ((d + ('0' as int)) as u32) as char
}

/// The decimal digits of `n`, most significant first, with no leading zeros
/// (the number zero is written as a single `0`).
pub open spec fn nat_digits(n: nat) -> Seq<char>
    decreases n,
{
    if n < 10 {
        seq![digit_char(n as int)]
    } else {
        nat_digits(n / 10).push(digit_char((n % 10) as int))
    }
}

/// The decimal text of the integer `n`, as `Display` writes it: a minus sign
/// in front of the digits of its magnitude when it is negative.
pub open spec fn int_text(n: int) -> Seq<char> {
    if n < 0 {
        seq!['-'] + nat_digits((-n) as nat)
    } else {
        nat_digits(n as nat)
    }
}

/// Appends the character `c` to `s` (`String::push`).
#[verifier::external_body]
pub(crate) fn push_char(s: &mut String, c: char)
    ensures
        final(s)@ == old(s)@.push(c),
{
    s.push(c);
}

/// Appends all of `t` to `s`.
pub fn push_str(s: &mut String, t: &str)
    ensures
        final(s)@ == old(s)@ + t@,
{
    s.append(t);
}

proof fn lemma_nat_digits_len(n: nat)
    ensures
        nat_digits(n).len() >= 1,
        n < 10 ==> nat_digits(n).len() == 1,
    decreases n,
{
    if n >= 10 {
        lemma_nat_digits_len(n / 10);
    }
}

/// The decimal text of `n` (what `n.to_string()` gives).
pub fn usize_text(n: usize) -> (res: String)
    ensures
        res@ == nat_digits(n as nat),
{
    u64_text(n as u64)
}

/// The decimal text of `n` (what `n.to_string()` gives).
pub fn u64_text(n: u64) -> (res: String)
    ensures
        res@ == nat_digits(n as nat),
{
    // Collect the digits from least to most significant.
    let mut rev: Vec<char> = Vec::new();
    let mut m: u64 = n;
    loop
        invariant_except_break
            nat_digits(n as nat) == nat_digits(m as nat) + rev@.reverse(),
        ensures
            nat_digits(n as nat) == rev@.reverse(),
        decreases m,
    {
        let d: u64 = m % 10;
        let c = char_of_digit(d);
        if m < 10 {
            rev.push(c);
            proof {
                assert(nat_digits(m as nat) == seq![c]);
                assert(rev@.reverse() =~= seq![c] + rev@.drop_last().reverse());
                assert(nat_digits(n as nat) =~= rev@.reverse());
            }
            break;
        }
        let ghost old_rev = rev@;
        rev.push(c);
        proof {
            assert(nat_digits(m as nat) == nat_digits((m / 10) as nat).push(c));
            assert(rev@.reverse() =~= seq![c] + old_rev.reverse());
            assert(nat_digits((m / 10) as nat) + rev@.reverse() =~= nat_digits((m / 10) as nat).push(c) + old_rev.reverse());
        }
        m = m / 10;
    }
    let mut res = String::new();
    let mut i: usize = rev.len();
    while i > 0
        invariant
            i <= rev.len(),
            res@ == rev@.subrange(i as int, rev.len() as int).reverse(),
            nat_digits(n as nat) == rev@.reverse(),
        decreases i,
    {
        i = i - 1;
        let ghost before = res@;
        push_char(&mut res, rev[i]);
        proof {
            assert(rev@.subrange(i as int, rev.len() as int).reverse() =~= before.push(rev@[i as int]));
        }
    }
    proof {
        assert(rev@.subrange(0, rev.len() as int) =~= rev@);
    }
    res
}

/// The character that writes a decimal digit below ten.
fn char_of_digit(d: u64) -> (c: char)
    requires
        d < 10,
    ensures
        c == digit_char(d as int),
{
    if d == 0 { '0' } else if d == 1 { '1' } else if d == 2 { '2' } else if d == 3 { '3' }
    else if d == 4 { '4' } else if d == 5 { '5' } else if d == 6 { '6' } else if d == 7 { '7' }
    else if d == 8 { '8' } else { '9' }
}

/// The decimal text of `n` (what `n.to_string()` gives).
pub fn i64_text(n: i64) -> (res: String)
    ensures
        res@ == int_text(n as int),
{
    if n < 0 {
        let magnitude: u64 = if n == i64::MIN {
            9223372036854775808u64
        } else {
            (-n) as u64
        };
        let digits = u64_text(magnitude);
        let mut res = String::new();
        push_char(&mut res, '-');
        push_str(&mut res, digits.as_str());
        res
    } else {
        u64_text(n as u64)
    }
}

/// `digits` written in a field of `width` characters, padded with leading
/// zeros (the `{:0width$}` format of an unsigned number).
pub open spec fn zero_padded(digits: Seq<char>, width: nat) -> Seq<char> {
    if digits.len() >= width {
        digits
    } else {
        Seq::new((width - digits.len()) as nat, |i: int| '0') + digits
    }
}

/// The decimal text of `n` padded with zeros to at least `width` characters.
pub fn u64_text_padded(n: u64, width: usize) -> (res: String)
    ensures
        res@ == zero_padded(nat_digits(n as nat), width as nat),
{
    let digits = u64_text(n);
    let len = digits.as_str().unicode_len();
    let mut res = String::new();
    let mut k: usize = len;
    while k < width
        invariant
            len == digits@.len(),
            len <= k <= width || (k == len && width < len),
            res@ == Seq::new((k - len) as nat, |i: int| '0'),
        decreases width - k,
    {
        let ghost before = res@;
        push_char(&mut res, '0');
        k = k + 1;
        proof {
            assert(res@ =~= Seq::new((k - len) as nat, |i: int| '0'));
        }
    }
    push_str(&mut res, digits.as_str());
    proof {
        if len >= width {
            assert(res@ =~= digits@);
        } else {
            assert(res@ =~= zero_padded(nat_digits(n as nat), width as nat));
        }
    }
    res
}

} // verus!
