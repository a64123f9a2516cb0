//! The attributes file: which lines route `Cargo.lock` through a merge
//! driver, and what the file holds once they are replaced.

use crate::text::{
    lemma_line_len, lemma_lines_hold_no_line_feed, lemma_lines_unlines, lemma_unlines_prepend,
    lemma_unlines_push, line_end, line_len, lines, push_range, range_starts_with, strip_cr,
    to_chars, unlines,
};
use vstd::prelude::*;
use vstd::string::StringExecFns;

verus! {

/// What a line starts with when it names the merge driver of `Cargo.lock`.
pub const ENTRY_PREFIX: &'static str = "Cargo.lock merge=";

/// The characters of `ENTRY_PREFIX`.
pub open spec fn entry_prefix() -> Seq<char> {
    ENTRY_PREFIX@
}

/// Whether `line` names a merge driver for `Cargo.lock`.
pub open spec fn is_entry(line: Seq<char>) -> bool {
    entry_prefix().is_prefix_of(line)
}

/// The line that names `name` as the merge driver of `Cargo.lock`.
pub open spec fn entry(name: Seq<char>) -> Seq<char> {
    entry_prefix() + name
}

/// Those of `lines`, in their order, that name no merge driver for
/// `Cargo.lock`.
pub open spec fn without_entries(lines: Seq<Seq<char>>) -> Seq<Seq<char>> {
    lines.filter(|line: Seq<char>| !is_entry(line))
}

/// The attributes file after an update, where it held `text` before: the
/// lines of `text` that name no merge driver for `Cargo.lock`, then, on
/// `install`, one that names `name`; each line ends in a line feed.
pub open spec fn rewritten(text: Seq<char>, name: Seq<char>, install: bool) -> Seq<char> {
    let others = without_entries(lines(text));
    unlines(
        if install {
            others.push(entry(name))
        } else {
            others
        },
    )
}

/// Whether the first of some lines stays is up to that line alone.
proof fn lemma_without_entries_prepend(line: Seq<char>, rest: Seq<Seq<char>>)
    ensures
        without_entries(seq![line] + rest) == if is_entry(line) {
            without_entries(rest)
        } else {
            seq![line] + without_entries(rest)
        },
{
    rest.lemma_filter_prepend(line, |line: Seq<char>| !is_entry(line));
    assert(Seq::<Seq<char>>::empty() + without_entries(rest) == without_entries(rest));
}

/// One step through the text: the line that starts at `start` runs to
/// `stop`, the next one starts at `next`, and the line is kept with a line
/// feed unless it is an entry.
proof fn lemma_rewrite_step(text: Seq<char>, start: int, end: int, stop: int, next: int)
    requires
        0 <= start < text.len(),
        end == start + line_len(text.skip(start)),
        stop == if end < text.len() && start < end && text[end - 1] == '\r' {
            end - 1
        } else {
            end
        },
        next == if end < text.len() {
            end + 1
        } else {
            end
        },
    ensures
        start <= stop <= end <= text.len(),
        end <= next <= text.len(),
        start < next,
        unlines(without_entries(lines(text.skip(start)))) == (if is_entry(
            text.subrange(start, stop),
        ) {
            Seq::<char>::empty()
        } else {
            text.subrange(start, stop) + seq!['\n']
        }) + unlines(without_entries(lines(text.skip(next)))),
{
    let rest = text.skip(start);
    let line = text.subrange(start, stop);
    let after = lines(text.skip(next));
    lemma_line_len(rest);
    assert(rest.take(end - start) == text.subrange(start, end));
    if end < text.len() {
        assert(rest.skip(end - start + 1) == text.skip(next));
        assert(line == strip_cr(rest.take(end - start)));
    } else {
        assert(line == rest);
        assert(text.skip(next).len() == 0);
        assert(seq![line] + after == seq![line]);
    }
    assert(lines(rest) == seq![line] + after);
    lemma_without_entries_prepend(line, after);
    if is_entry(line) {
        assert(Seq::<char>::empty() + unlines(without_entries(after)) == unlines(
            without_entries(after),
        ));
    } else {
        lemma_unlines_prepend(line, without_entries(after));
    }
}

/// What the attributes file is to hold after an update, where it held
/// `text` before.
pub fn rewrite(text: &str, name: &str, install: bool) -> (r: String)
    ensures
        r@ == rewritten(text@, name@, install),
{
    let chars = to_chars(text);
    let prefix = to_chars(ENTRY_PREFIX);
    let mut out = String::new();
    let mut start: usize = 0;
    assert(chars@.skip(0) == chars@);
    while start < chars.len()
        invariant
            start <= chars.len(),
            prefix@ == entry_prefix(),
            unlines(without_entries(lines(chars@))) == out@ + unlines(
                without_entries(lines(chars@.skip(start as int))),
            ),
        decreases chars.len() - start,
    {
        let end = line_end(&chars, start);
        let last = end == chars.len();
        let stop = if !last && start < end && chars[end - 1] == '\r' {
            end - 1
        } else {
            end
        };
        let next = if last {
            end
        } else {
            end + 1
        };
        proof {
            lemma_rewrite_step(chars@, start as int, end as int, stop as int, next as int);
        }
        if !range_starts_with(&chars, start, stop, &prefix) {
            push_range(&mut out, &chars, start, stop);
            out.push('\n');
        }
        start = next;
    }
    assert(unlines(without_entries(lines(chars@.skip(start as int)))) == Seq::<char>::empty());
    if install {
        proof {
            lemma_unlines_push(without_entries(lines(text@)), entry(name@));
        }
        out.append(ENTRY_PREFIX);
        out.append(name);
        out.push('\n');
    }
    out
}

/// A line that is no entry does not become one by losing a carriage
/// return at its end.
proof fn lemma_strip_cr_of_other(line: Seq<char>)
    requires
        !is_entry(line),
    ensures
        !is_entry(strip_cr(line)),
{
    let prefix = entry_prefix();
    let stripped = strip_cr(line);
    if prefix.is_prefix_of(stripped) {
        assert(prefix =~= line.subrange(0, prefix.len() as int));
    }
}

/// The entry for `name` is still an entry without a carriage return at
/// its end.
proof fn lemma_strip_cr_of_entry(name: Seq<char>)
    ensures
        is_entry(strip_cr(entry(name))),
{
    reveal_strlit("Cargo.lock merge=");
    let prefix = entry_prefix();
    let line = entry(name);
    assert(prefix =~= line.subrange(0, prefix.len() as int));
    assert(prefix =~= strip_cr(line).subrange(0, prefix.len() as int));
}

/// The lines of the attributes file after an update are the lines that
/// the update writes, each without a carriage return at its end.
pub proof fn lemma_lines_rewritten(text: Seq<char>, name: Seq<char>, install: bool)
    requires
        install ==> !name.contains('\n'),
    ensures
        lines(rewritten(text, name, install)) == (if install {
            without_entries(lines(text)).push(entry(name))
        } else {
            without_entries(lines(text))
        }).map_values(|line: Seq<char>| strip_cr(line)),
{
    let others = without_entries(lines(text));
    let written = if install {
        others.push(entry(name))
    } else {
        others
    };
    lemma_lines_hold_no_line_feed(text);
    assert forall|i: int| 0 <= i < written.len() implies !(#[trigger] written[i]).contains(
        '\n',
    ) by {
        if i < others.len() {
            assert(others.contains(others[i]));
            lines(text).lemma_filter_contains_rev(|line: Seq<char>| !is_entry(line), others[i]);
        } else {
            reveal_strlit("Cargo.lock merge=");
            let line = entry(name);
            assert forall|j: int| 0 <= j < line.len() implies line[j] != '\n' by {
                if j >= entry_prefix().len() {
                    assert(name.contains(line[j]));
                }
            }
        }
    }
    lemma_lines_unlines(written);
}

/// After an uninstall no line of the attributes file names a merge driver
/// for `Cargo.lock`.
pub proof fn lemma_uninstall_leaves_no_entry(text: Seq<char>, name: Seq<char>)
    ensures
        forall|i: int|
            0 <= i < lines(rewritten(text, name, false)).len() ==> !is_entry(
                #[trigger] lines(rewritten(text, name, false))[i],
            ),
{
    let others = without_entries(lines(text));
    let after = lines(rewritten(text, name, false));
    lemma_lines_rewritten(text, name, false);
    assert forall|i: int| 0 <= i < after.len() implies !is_entry(#[trigger] after[i]) by {
        lines(text).lemma_filter_pred(|line: Seq<char>| !is_entry(line), i);
        lemma_strip_cr_of_other(others[i]);
    }
}

/// After an install under a name without line feed, the last line of the
/// attributes file names that driver for `Cargo.lock`, and no other line
/// names one.
pub proof fn lemma_install_leaves_one_entry(text: Seq<char>, name: Seq<char>)
    requires
        !name.contains('\n'),
    ensures
        ({
            let after = lines(rewritten(text, name, true));
            &&& after.len() > 0
            &&& after.last() == strip_cr(entry(name))
            &&& is_entry(after.last())
            &&& forall|i: int| 0 <= i < after.len() - 1 ==> !is_entry(#[trigger] after[i])
        }),
{
    let others = without_entries(lines(text));
    let after = lines(rewritten(text, name, true));
    lemma_lines_rewritten(text, name, true);
    lemma_strip_cr_of_entry(name);
    assert forall|i: int| 0 <= i < after.len() - 1 implies !is_entry(#[trigger] after[i]) by {
        lines(text).lemma_filter_pred(|line: Seq<char>| !is_entry(line), i);
        lemma_strip_cr_of_other(others[i]);
    }
}

} // verus!
