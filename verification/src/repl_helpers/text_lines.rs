//! Submissions as lines: splitting a text at its line breaks, and joining
//! lines back with them.

use vstd::prelude::*;

use crate::text::{push_char, push_str};

verus! {

/// The lines of `s`, split at each line break (a text with `n` line breaks
/// has `n + 1` lines).
pub open spec fn split_lines(s: Seq<char>) -> Seq<Seq<char>>
    decreases s.len(),
{
    if s.len() == 0 {
        seq![Seq::empty()]
    } else {
        let rest = split_lines(s.drop_last());
        if s.last() == '\n' {
            rest.push(Seq::empty())
        } else {
            rest.update(rest.len() - 1, rest.last().push(s.last()))
        }
    }
}

/// The lines of `ls` joined by line breaks.
pub open spec fn join_lines(ls: Seq<Seq<char>>) -> Seq<char>
    decreases ls.len(),
{
    if ls.len() == 0 {
        Seq::empty()
    } else if ls.len() == 1 {
        ls[0]
    } else {
        join_lines(ls.drop_last()) + "\n"@ + ls.last()
    }
}

/// A text split at its line breaks has at least one line.
pub proof fn lemma_split_nonempty(s: Seq<char>)
    ensures
        split_lines(s).len() >= 1,
    decreases s.len(),
{
    if s.len() > 0 {
        lemma_split_nonempty(s.drop_last());
    }
}

proof fn lemma_join_extend_last(ls: Seq<Seq<char>>, c: char)
    requires
        ls.len() >= 1,
    ensures
        join_lines(ls.update(ls.len() - 1, ls.last().push(c))) == join_lines(ls).push(c),
{
    let us = ls.update(ls.len() - 1, ls.last().push(c));
    if ls.len() == 1 {
        assert(us[0] == ls[0].push(c));
    } else {
        assert(us.drop_last() =~= ls.drop_last());
        assert(us.last() == ls.last().push(c));
        assert(join_lines(ls.drop_last()) + "\n"@ + ls.last().push(c) =~= (join_lines(ls.drop_last()) + "\n"@ + ls.last()).push(c));
    }
}

/// Joining the lines of a text gives the text back.
pub proof fn lemma_join_split(s: Seq<char>)
    ensures
        join_lines(split_lines(s)) == s,
    decreases s.len(),
{
    reveal_strlit("\n");
    if s.len() > 0 {
        let t = s.drop_last();
        lemma_join_split(t);
        lemma_split_nonempty(t);
        let rest = split_lines(t);
        if s.last() == '\n' {
            let ls = rest.push(Seq::<char>::empty());
            assert(ls.drop_last() =~= rest);
            assert(join_lines(ls) =~= t + "\n"@ + Seq::<char>::empty());
            assert(t + "\n"@ + Seq::<char>::empty() =~= s);
        } else {
            lemma_join_extend_last(rest, s.last());
            assert(t.push(s.last()) =~= s);
        }
    }
}

/// The lines of `s`, split at each line break.
pub fn split_lines_of(s: &str) -> (res: Vec<String>)
    ensures
        res@.map_values(|l: String| l@) == split_lines(s@),
{
    let n = s.unicode_len();
    let mut lines: Vec<String> = Vec::new();
    let mut current = String::new();
    let mut i: usize = 0;
    proof {
        assert(s@.take(0) =~= Seq::<char>::empty());
        assert(lines@.map_values(|l: String| l@).push(current@) =~= split_lines(s@.take(0)));
    }
    while i < n
        invariant
            n == s@.len(),
            i <= n,
            lines@.map_values(|l: String| l@).push(current@) == split_lines(s@.take(i as int)),
        decreases n - i,
    {
        let c = s.get_char(i);
        let ghost before = lines@.map_values(|l: String| l@).push(current@);
        proof {
            assert(s@.take(i + 1).drop_last() =~= s@.take(i as int));
            assert(s@.take(i + 1).last() == c);
        }
        if c == '\n' {
            let mut fresh = String::new();
            std::mem::swap(&mut fresh, &mut current);
            let ghost old_lines = lines@;
            lines.push(fresh);
            proof {
                assert(lines@.map_values(|l: String| l@) =~= old_lines.map_values(|l: String| l@).push(fresh@));
                assert(lines@.map_values(|l: String| l@).push(current@) =~= before.push(Seq::<char>::empty()));
            }
        } else {
            push_char(&mut current, c);
            proof {
                assert(lines@.map_values(|l: String| l@).push(current@) =~= before.update(
                    before.len() - 1,
                    before.last().push(c),
                ));
            }
        }
        i = i + 1;
    }
    proof {
        assert(s@.take(n as int) =~= s@);
    }
    let ghost old_lines = lines@;
    let ghost cur = current@;
    lines.push(current);
    proof {
        assert(lines@.map_values(|l: String| l@) =~= old_lines.map_values(|l: String| l@).push(cur));
    }
    lines
}

/// The lines of `lines` joined by line breaks.
pub fn join_lines_of(lines: &Vec<String>) -> (res: String)
    ensures
        res@ == join_lines(lines@.map_values(|l: String| l@)),
{
    let ghost ls = lines@.map_values(|l: String| l@);
    let mut res = String::new();
    let mut i: usize = 0;
    while i < lines.len()
        invariant
            i <= lines@.len(),
            ls == lines@.map_values(|l: String| l@),
            res@ == join_lines(ls.take(i as int)),
        decreases lines@.len() - i,
    {
        if i > 0 {
            push_str(&mut res, "\n");
        }
        push_str(&mut res, lines[i].as_str());
        proof {
            assert(ls.take(i + 1).drop_last() =~= ls.take(i as int));
            if i == 0 {
                assert(res@ =~= join_lines(ls.take(1)));
            }
        }
        i = i + 1;
    }
    proof {
        assert(ls.take(lines@.len() as int) =~= ls);
    }
    res
}

} // verus!
