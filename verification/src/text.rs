//! Text as sequences of characters: conversion, trimming and lines.

use vstd::prelude::*;

verus! {

/// The characters of `s`, in order.
pub fn to_chars(s: &str) -> (chars: Vec<char>)
    ensures
        chars@ == s@,
{
    let mut chars: Vec<char> = Vec::new();
    let source = s.chars();
    for c in it: source
        invariant
            it.seq() == s@,
            chars@ == s@.take(it.index()),
    {
        chars.push(c);
    }
    chars
}

/// Appends the characters `chars[from..to]` to `out`.
pub fn push_range(out: &mut String, chars: &Vec<char>, from: usize, to: usize)
    requires
        from <= to <= chars.len(),
    ensures
        final(out)@ == old(out)@ + chars@.subrange(from as int, to as int),
{
    let mut i: usize = from;
    while i < to
        invariant
            from <= i <= to <= chars.len(),
            out@ == old(out)@ + chars@.subrange(from as int, i as int),
        decreases to - i,
    {
        out.push(chars[i]);
        i += 1;
    }
}

/// Whether `chars[from..to]` starts with `prefix`.
pub fn range_starts_with(
    chars: &Vec<char>,
    from: usize,
    to: usize,
    prefix: &Vec<char>,
) -> (b: bool)
    requires
        from <= to <= chars.len(),
    ensures
        b == prefix@.is_prefix_of(chars@.subrange(from as int, to as int)),
{
    let ghost range = chars@.subrange(from as int, to as int);
    if prefix.len() > to - from {
        return false;
    }
    let mut i: usize = 0;
    while i < prefix.len()
        invariant
            from <= to <= chars.len(),
            i <= prefix.len() <= to - from,
            range == chars@.subrange(from as int, to as int),
            forall|j: int| 0 <= j < i ==> prefix@[j] == range[j],
        decreases prefix.len() - i,
    {
        if prefix[i] != chars[from + i] {
            assert(range.subrange(0, prefix@.len() as int)[i as int] != prefix@[i as int]);
            return false;
        }
        i += 1;
    }
    assert(prefix@ =~= range.subrange(0, prefix@.len() as int));
    true
}

/// Whether `c` has the Unicode property `White_Space`.
pub open spec fn spec_is_whitespace(c: char) -> bool {
    let n = c as u32;
    ||| 0x09 <= n <= 0x0D
    ||| n == 0x20
    ||| n == 0x85
    ||| n == 0xA0
    ||| n == 0x1680
    ||| 0x2000 <= n <= 0x200A
    ||| n == 0x2028
    ||| n == 0x2029
    ||| n == 0x202F
    ||| n == 0x205F
    ||| n == 0x3000
}

/// Whether `c` has the Unicode property `White_Space`.
#[verifier::when_used_as_spec(spec_is_whitespace)]
pub fn is_whitespace(c: char) -> (b: bool)
    ensures
        b == spec_is_whitespace(c),
{
    let n: u32 = c as u32;
    (0x09 <= n && n <= 0x0D) || n == 0x20 || n == 0x85 || n == 0xA0 || n == 0x1680 || (0x2000 <= n
        && n <= 0x200A) || n == 0x2028 || n == 0x2029 || n == 0x202F || n == 0x205F || n == 0x3000
}

/// `s` without the whitespace at its end: the longest prefix of `s` that
/// is empty or ends in a character that is not whitespace.
pub open spec fn trimmed(s: Seq<char>) -> Seq<char>
    decreases s.len(),
{
    if s.len() > 0 && is_whitespace(s.last()) {
        trimmed(s.drop_last())
    } else {
        s
    }
}

/// What is trimmed is a prefix of the text; only whitespace follows it; and
/// it does not end in whitespace.
pub proof fn lemma_trimmed(s: Seq<char>)
    ensures
        trimmed(s).is_prefix_of(s),
        forall|i: int| trimmed(s).len() <= i < s.len() ==> is_whitespace(s[i]),
        trimmed(s).len() > 0 ==> !is_whitespace(trimmed(s).last()),
    decreases s.len(),
{
    if s.len() > 0 && is_whitespace(s.last()) {
        let shorter = s.drop_last();
        lemma_trimmed(shorter);
        assert(trimmed(s) == shorter.subrange(0, trimmed(s).len() as int));
        assert(trimmed(s) =~= s.subrange(0, trimmed(s).len() as int));
        assert forall|i: int| trimmed(s).len() <= i < s.len() implies is_whitespace(s[i]) by {
            if i < shorter.len() {
                assert(s[i] == shorter[i]);
            }
        }
    } else {
        assert(s =~= s.subrange(0, s.len() as int));
    }
}

/// A copy of `s` without the whitespace at its end.
pub fn trim_end(s: &str) -> (r: String)
    ensures
        r@ == trimmed(s@),
{
    let chars = to_chars(s);
    let mut end: usize = chars.len();
    assert(chars@.take(end as int) == chars@);
    while end > 0 && is_whitespace(chars[end - 1])
        invariant
            end <= chars.len(),
            trimmed(chars@) == trimmed(chars@.take(end as int)),
        decreases end,
    {
        assert(chars@.take(end as int).drop_last() == chars@.take(end - 1));
        end -= 1;
    }
    let mut r = String::new();
    push_range(&mut r, &chars, 0, end);
    r
}

/// How many characters of `s` stand before its first line feed, or in all
/// of `s` where it holds none.
pub open spec fn line_len(s: Seq<char>) -> nat
    decreases s.len(),
{
    if s.len() == 0 || s.first() == '\n' {
        0
    } else {
        1 + line_len(s.drop_first())
    }
}

/// `line` without the carriage return at its end, if it has one.
pub open spec fn strip_cr(line: Seq<char>) -> Seq<char> {
    if line.len() > 0 && line.last() == '\r' {
        line.drop_last()
    } else {
        line
    }
}

/// The lines of `s`. A line ends at a line feed, or at a carriage return
/// directly followed by one; neither belongs to the line. What follows the
/// last line feed is a line of its own unless it is empty, and keeps a
/// carriage return at its end.
pub open spec fn lines(s: Seq<char>) -> Seq<Seq<char>>
    decreases s.len(),
{
    let n = line_len(s) as int;
    if s.len() == 0 {
        Seq::empty()
    } else if n >= s.len() {
        seq![s]
    } else {
        seq![strip_cr(s.take(n))] + lines(s.skip(n + 1))
    }
}

/// The text in which each of `lines` is followed by a line feed.
pub open spec fn unlines(lines: Seq<Seq<char>>) -> Seq<char>
    decreases lines.len(),
{
    if lines.len() == 0 {
        Seq::empty()
    } else {
        lines.first() + seq!['\n'] + unlines(lines.drop_first())
    }
}

/// `line_len` never runs past the end, and stops only at a line feed.
pub proof fn lemma_line_len(s: Seq<char>)
    ensures
        line_len(s) <= s.len(),
        line_len(s) < s.len() ==> s[line_len(s) as int] == '\n',
        forall|i: int| 0 <= i < line_len(s) ==> s[i] != '\n',
    decreases s.len(),
{
    if s.len() > 0 && s.first() != '\n' {
        let rest = s.drop_first();
        lemma_line_len(rest);
        assert forall|i: int| 0 <= i < line_len(s) implies s[i] != '\n' by {
            if i > 0 {
                assert(s[i] == rest[i - 1]);
            }
        }
    }
}

/// A line put before others comes first in the text, with its line feed.
pub proof fn lemma_unlines_prepend(line: Seq<char>, rest: Seq<Seq<char>>)
    ensures
        unlines(seq![line] + rest) == line + seq!['\n'] + unlines(rest),
{
    assert((seq![line] + rest).drop_first() == rest);
}

/// A line put after others comes last in the text, with its line feed.
pub proof fn lemma_unlines_push(lines: Seq<Seq<char>>, line: Seq<char>)
    ensures
        unlines(lines.push(line)) == unlines(lines) + line + seq!['\n'],
    decreases lines.len(),
{
    let pushed = lines.push(line);
    if lines.len() == 0 {
        assert(pushed.drop_first() == lines);
        assert(unlines(pushed) =~= unlines(lines) + line + seq!['\n']);
    } else {
        lemma_unlines_push(lines.drop_first(), line);
        assert(pushed.drop_first() == lines.drop_first().push(line));
        assert(unlines(pushed) =~= unlines(lines) + line + seq!['\n']);
    }
}

/// The first line of `s` has length `n` where the first line feed of `s`
/// is at `n`, or where `s` has length `n` and holds no line feed.
pub proof fn lemma_line_len_is(s: Seq<char>, n: int)
    requires
        0 <= n <= s.len(),
        forall|i: int| 0 <= i < n ==> s[i] != '\n',
        n < s.len() ==> s[n] == '\n',
    ensures
        line_len(s) == n,
    decreases n,
{
    if n > 0 {
        let rest = s.drop_first();
        assert forall|i: int| 0 <= i < n - 1 implies rest[i] != '\n' by {
            assert(rest[i] == s[i + 1]);
        }
        lemma_line_len_is(rest, n - 1);
    }
}

/// No line holds a line feed.
pub proof fn lemma_lines_hold_no_line_feed(s: Seq<char>)
    ensures
        forall|i: int| 0 <= i < lines(s).len() ==> !(#[trigger] lines(s)[i]).contains('\n'),
    decreases s.len(),
{
    let n = line_len(s) as int;
    lemma_line_len(s);
    if s.len() == 0 {
    } else if n >= s.len() {
    } else {
        let rest = s.skip(n + 1);
        lemma_lines_hold_no_line_feed(rest);
        let first = strip_cr(s.take(n));
        assert forall|i: int| 0 <= i < lines(s).len() implies !(#[trigger] lines(s)[i]).contains(
            '\n',
        ) by {
            if i == 0 {
                assert(lines(s)[0] == first);
                assert forall|j: int| 0 <= j < first.len() implies first[j] != '\n' by {
                    assert(first[j] == s[j]);
                }
            } else {
                assert(lines(s)[i] == lines(rest)[i - 1]);
            }
        }
    }
}

/// Where a line without line feed, then a line feed, stand before `rest`,
/// the lines are that line, without a carriage return at its end, and
/// then the lines of `rest`.
pub proof fn lemma_lines_prepend(line: Seq<char>, rest: Seq<char>)
    requires
        !line.contains('\n'),
    ensures
        lines(line + seq!['\n'] + rest) == seq![strip_cr(line)] + lines(rest),
{
    let s = line + seq!['\n'] + rest;
    let n = line.len() as int;
    assert forall|i: int| 0 <= i < n implies s[i] != '\n' by {
        assert(s[i] == line[i]);
    }
    lemma_line_len_is(s, n);
    assert(s.take(n) == line);
    assert(s.skip(n + 1) == rest);
}

/// Lines without line feeds are the lines of the text in which each is
/// followed by one, but for a carriage return at the end of a line,
/// which is lost.
pub proof fn lemma_lines_unlines(ls: Seq<Seq<char>>)
    requires
        forall|i: int| 0 <= i < ls.len() ==> !(#[trigger] ls[i]).contains('\n'),
    ensures
        lines(unlines(ls)) == ls.map_values(|line: Seq<char>| strip_cr(line)),
    decreases ls.len(),
{
    let stripped = ls.map_values(|line: Seq<char>| strip_cr(line));
    if ls.len() == 0 {
        assert(lines(unlines(ls)) == stripped);
    } else {
        let rest = ls.drop_first();
        assert forall|i: int| 0 <= i < rest.len() implies !(#[trigger] rest[i]).contains(
            '\n',
        ) by {
            assert(rest[i] == ls[i + 1]);
        }
        lemma_lines_unlines(rest);
        lemma_lines_prepend(ls.first(), unlines(rest));
        assert(lines(unlines(ls)) == stripped);
    }
}

/// The first index at or after `start` at which `chars` holds a line feed,
/// or its length where there is none.
pub fn line_end(chars: &Vec<char>, start: usize) -> (end: usize)
    requires
        start <= chars.len(),
    ensures
        end == start + line_len(chars@.skip(start as int)),
        start <= end <= chars.len(),
{
    let mut end: usize = start;
    while end < chars.len() && chars[end] != '\n'
        invariant
            start <= end <= chars.len(),
            start + line_len(chars@.skip(start as int)) == end + line_len(chars@.skip(end as int)),
        decreases chars.len() - end,
    {
        assert(chars@.skip(end as int).drop_first() == chars@.skip(end + 1));
        end += 1;
    }
    end
}

} // verus!
