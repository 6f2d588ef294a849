//! Texts as characters and as lines.

use vstd::prelude::*;

verus! {

/// The index just behind the line that starts at `from`: behind its line
/// feed, or the end of `s` where no line feed follows.
pub open spec fn line_end(s: Seq<char>, from: int) -> int
    decreases s.len() - from,
{
    if from < 0 || from >= s.len() {
        s.len() as int
    } else if s[from] == '\n' {
        from + 1
    } else {
        line_end(s, from + 1)
    }
}

/// The line `s[from..end]` without its line feed and without a carriage
/// return before that.
pub open spec fn line_content(s: Seq<char>, from: int, end: int) -> Seq<char> {
    if end > from && s[end - 1] == '\n' {
        if end - 1 > from && s[end - 2] == '\r' {
            s.subrange(from, end - 2)
        } else {
            s.subrange(from, end - 1)
        }
    } else {
        s.subrange(from, end)
    }
}

/// A line that starts inside the text is not empty and ends inside it.
pub proof fn lemma_line_end(s: Seq<char>, from: int)
    requires
        0 <= from < s.len(),
    ensures
        from < line_end(s, from) <= s.len(),
    decreases s.len() - from,
{
    if s[from] != '\n' {
        if from + 1 < s.len() {
            lemma_line_end(s, from + 1);
        } else {
            assert(line_end(s, from + 1) == s.len());
        }
    }
}

/// The lines of `s` from `from` on. A line ends with a line feed, alone or
/// behind a carriage return, or with the text; behind the last line feed no
/// further line starts.
pub open spec fn lines_from(s: Seq<char>, from: int) -> Seq<Seq<char>>
    decreases s.len() - from,
{
    if from < 0 || from >= s.len() {
        Seq::empty()
    } else {
        proof {
            lemma_line_end(s, from);
        }
        let end = line_end(s, from);
        seq![line_content(s, from, end)] + lines_from(s, end)
    }
}

/// The lines of `s`.
pub open spec fn spec_lines(s: Seq<char>) -> Seq<Seq<char>> {
    lines_from(s, 0)
}

/// The lines with a line feed between each two.
pub open spec fn spec_join(lines: Seq<Seq<char>>) -> Seq<char>
    decreases lines.len(),
{
    if lines.len() == 0 {
        Seq::empty()
    } else if lines.len() == 1 {
        lines[0]
    } else {
        spec_join(lines.drop_last()) + seq!['\n'] + lines.last()
    }
}

/// Whether `s` ends with a line feed.
pub open spec fn ends_with_newline(s: Seq<char>) -> bool {
    s.len() > 0 && s.last() == '\n'
}

/// The characters of `lines`, one sequence for each.
pub open spec fn lines_view(lines: Seq<Vec<char>>) -> Seq<Seq<char>> {
    lines.map_values(|line: Vec<char>| line@)
}

/// Appends `c` with `String::push`, which puts the character at the end and
/// leaves the rest as it is.
#[verifier::external_body]
fn push_char(s: &mut String, c: char)
    ensures
        final(s)@ == old(s)@.push(c),
{
    s.push(c)
}

/// The characters of `s`.
pub fn chars_of(s: &str) -> (out: Vec<char>)
    ensures
        out@ == s@,
{
    let mut out: Vec<char> = Vec::new();
    for c in it: s.chars()
        invariant
            it.seq() == s@,
            out@ == it.seq().take(it.index() as int),
    {
        out.push(c);
        assert(out@ =~= it.seq().take(it.index() + 1));
    }
    assert(out@ =~= s@);
    out
}

/// Appends `chars[from..to]` to `out`.
fn push_range(out: &mut String, chars: &Vec<char>, from: usize, to: usize)
    requires
        from <= to <= chars.len(),
    ensures
        final(out)@ == old(out)@ + chars@.subrange(from as int, to as int),
{
    let mut i: usize = from;
    assert(out@ =~= old(out)@ + chars@.subrange(from as int, from as int));
    while i < to
        invariant
            from <= i <= to <= chars.len(),
            out@ == old(out)@ + chars@.subrange(from as int, i as int),
        decreases to - i,
    {
        push_char(out, chars[i]);
        assert(out@ =~= old(out)@ + chars@.subrange(from as int, i + 1));
        i = i + 1;
    }
}

/// The text that `chars` spell.
pub fn string_of(chars: &Vec<char>) -> (out: String)
    ensures
        out@ == chars@,
{
    let mut out = String::new();
    push_range(&mut out, chars, 0, chars.len());
    assert(out@ =~= chars@);
    out
}

/// Copies `chars[from..to]`.
pub fn copy_chars(chars: &Vec<char>, from: usize, to: usize) -> (out: Vec<char>)
    requires
        from <= to <= chars.len(),
    ensures
        out@ == chars@.subrange(from as int, to as int),
{
    let mut out: Vec<char> = Vec::new();
    let mut i: usize = from;
    while i < to
        invariant
            from <= i <= to <= chars.len(),
            out@ == chars@.subrange(from as int, i as int),
        decreases to - i,
    {
        out.push(chars[i]);
        assert(out@ =~= chars@.subrange(from as int, i + 1));
        i = i + 1;
    }
    out
}

/// Splits a text into its lines.
pub fn lines(chars: &Vec<char>) -> (out: Vec<Vec<char>>)
    ensures
        lines_view(out@) == spec_lines(chars@),
{
    let mut out: Vec<Vec<char>> = Vec::new();
    let mut at: usize = 0;
    assert(lines_view(out@) =~= Seq::<Seq<char>>::empty());
    while at < chars.len()
        invariant
            at <= chars.len(),
            spec_lines(chars@) == lines_view(out@) + lines_from(chars@, at as int),
        decreases chars.len() - at,
    {
        let mut end: usize = at;
        while end < chars.len() && chars[end] != '\n'
            invariant
                at <= end <= chars.len(),
                line_end(chars@, at as int) == line_end(chars@, end as int),
                forall|k: int| at <= k < end ==> chars@[k] != '\n',
            decreases chars.len() - end,
        {
            end = end + 1;
        }
        let stop: usize = if end < chars.len() {
            if end > at && chars[end - 1] == '\r' {
                end - 1
            } else {
                end
            }
        } else {
            end
        };
        let next: usize = if end < chars.len() {
            end + 1
        } else {
            end
        };
        let line = copy_chars(chars, at, stop);
        let ghost before = lines_view(out@);
        out.push(line);
        proof {
            lemma_line_end(chars@, at as int);
            assert(next == line_end(chars@, at as int));
            assert(line@ == line_content(chars@, at as int, next as int));
            assert(lines_view(out@) =~= before.push(line@));
            assert(before + lines_from(chars@, at as int) =~= lines_view(out@) + lines_from(
                chars@,
                next as int,
            ));
        }
        at = next;
    }
    proof {
        assert(lines_view(out@) + lines_from(chars@, at as int) =~= lines_view(out@));
    }
    out
}

/// Joins lines with a line feed between each two.
pub fn join(lines: &Vec<Vec<char>>) -> (out: Vec<char>)
    ensures
        out@ == spec_join(lines_view(lines@)),
{
    let mut out: Vec<char> = Vec::new();
    let mut i: usize = 0;
    let ghost all = lines_view(lines@);
    while i < lines.len()
        invariant
            i <= lines.len(),
            all == lines_view(lines@),
            out@ == spec_join(all.take(i as int)),
        decreases lines.len() - i,
    {
        let ghost before = out@;
        if i > 0 {
            out.push('\n');
        }
        let line = &lines[i];
        let mut j: usize = 0;
        let ghost start = out@;
        while j < line.len()
            invariant
                j <= line.len(),
                out@ == start + line@.take(j as int),
            decreases line.len() - j,
        {
            out.push(line[j]);
            assert(out@ =~= start + line@.take(j + 1));
            j = j + 1;
        }
        proof {
            let upto = all.take(i + 1);
            assert(line@.take(line.len() as int) =~= line@);
            assert(upto.last() == line@);
            assert(upto.drop_last() =~= all.take(i as int));
            if i == 0 {
                assert(before =~= Seq::<char>::empty());
                assert(out@ =~= line@);
                assert(upto[0] == line@);
            } else {
                assert(out@ =~= before + seq!['\n'] + line@);
            }
        }
        i = i + 1;
    }
    proof {
        assert(all.take(lines.len() as int) =~= all);
    }
    out
}

} // verus!
