//! Splitting a text into lines.
//!
//! A line ends at a line feed, at a carriage return followed by a line feed,
//! or at a lone carriage return. The break itself belongs to no line. A text
//! that ends with a break has no empty line after it.

use vstd::prelude::*;
use vstd::string::StringExecFns;
use crate::chars::{chars_of, string_between};

verus! {

/// Whether `c` ends a line: line feed or carriage return.
pub open spec fn is_line_break(c: char) -> bool {
    c == '\n' || c == '\r'
}

/// How many scalar values stand before the first line break of `text`;
/// the whole length where it has none.
pub open spec fn first_break(text: Seq<char>) -> nat
    decreases text.len(),
{
    if text.len() == 0 || is_line_break(text[0]) {
        0
    } else {
        1 + first_break(text.skip(1))
    }
}

/// How many scalar values the line break at `at` takes: two for a carriage
/// return directly followed by a line feed, one otherwise.
pub open spec fn break_width(text: Seq<char>, at: int) -> int {
    if text[at] == '\r' && at + 1 < text.len() && text[at + 1] == '\n' {
        2
    } else {
        1
    }
}

/// The lines of `text`, in order.
pub open spec fn lines_of(text: Seq<char>) -> Seq<Seq<char>>
    decreases text.len(),
{
    if text.len() == 0 {
        Seq::empty()
    } else {
        let n = first_break(text) as int;
        if n >= text.len() {
            seq![text]
        } else {
            seq![text.take(n)] + lines_of(text.skip(n + break_width(text, n)))
        }
    }
}

/// What each string of `v` holds, in order.
pub open spec fn texts(v: Seq<String>) -> Seq<Seq<char>> {
    Seq::new(v.len(), |i: int| v[i]@)
}

/// `first_break` is the least index that holds a line break.
pub proof fn lemma_first_break(text: Seq<char>)
    ensures
        first_break(text) <= text.len(),
        forall|i: int| 0 <= i < first_break(text) ==> !is_line_break(#[trigger] text[i]),
        first_break(text) < text.len() ==> is_line_break(text[first_break(text) as int]),
    decreases text.len(),
{
    if text.len() == 0 || is_line_break(text[0]) {
    } else {
        let rest = text.skip(1);
        lemma_first_break(rest);
        assert forall|i: int| 0 <= i < first_break(text) implies !is_line_break(
            #[trigger] text[i],
        ) by {
            if i > 0 {
                assert(text[i] == rest[i - 1]);
            }
        }
    }
}

/// A stretch without line breaks in front of `to` does not change where the
/// first break after `from` lies.
proof fn lemma_first_break_step(text: Seq<char>, from: int, to: int)
    requires
        0 <= from <= to <= text.len(),
        forall|k: int| from <= k < to ==> !is_line_break(#[trigger] text[k]),
    ensures
        first_break(text.skip(from)) == (to - from) + first_break(text.skip(to)),
    decreases to - from,
{
    if from < to {
        assert(text.skip(from).skip(1) =~= text.skip(from + 1));
        lemma_first_break_step(text, from + 1, to);
    }
}

/// Whether `c` is a line feed or a carriage return.
pub fn is_break(c: char) -> (r: bool)
    ensures
        r == is_line_break(c),
{
    c == '\n' || c == '\r'
}

/// Splits `text` into its lines.
pub fn split_lines(text: &str) -> (lines: Vec<String>)
    ensures
        texts(lines@) == lines_of(text@),
{
    let chars = chars_of(text);
    let n = chars.len();
    let mut lines: Vec<String> = Vec::new();
    let mut pos: usize = 0;
    proof {
        assert(chars@.skip(0) =~= text@);
    }
    while pos < n
        invariant
            chars@ == text@,
            n == chars@.len(),
            pos <= n,
            lines_of(text@) == texts(lines@) + lines_of(chars@.skip(pos as int)),
        decreases n - pos,
    {
        let mut end: usize = pos;
        while end < n && !is_break(chars[end])
            invariant
                n == chars@.len(),
                pos <= end <= n,
                forall|k: int| pos <= k < end ==> !is_line_break(#[trigger] chars@[k]),
            decreases n - end,
        {
            end += 1;
        }
        let line = string_between(&chars, pos, end);
        let next: usize = if end == n {
            n
        } else if chars[end] == '\r' && end + 1 < n && chars[end + 1] == '\n' {
            end + 2
        } else {
            end + 1
        };
        proof {
            let rest = chars@.skip(pos as int);
            lemma_first_break_step(chars@, pos as int, end as int);
            assert(first_break(chars@.skip(end as int)) == 0);
            assert(rest.take(end - pos) =~= line@);
            if end < n {
                assert(rest.skip(end - pos + break_width(rest, end - pos)) =~= chars@.skip(
                    next as int,
                ));
            }
        }
        lines.push(line);
        pos = next;
    }
    lines
}

/// How many lines `text` has.
pub fn count_lines(text: &str) -> (n: usize)
    ensures
        n == lines_of(text@).len(),
{
    let lines = split_lines(text);
    lines.len()
}

/// The lines written out one after another, a line feed after each.
pub open spec fn rendered(lines: Seq<Seq<char>>) -> Seq<char>
    decreases lines.len(),
{
    if lines.len() == 0 {
        Seq::empty()
    } else {
        rendered(lines.drop_last()) + lines.last().push('\n')
    }
}

/// Writes the lines out one after another, each as it is and with a line feed
/// after it.
pub fn render_lines(lines: &Vec<String>) -> (out: String)
    ensures
        out@ == rendered(texts(lines@)),
{
    let mut out = String::new();
    let mut i: usize = 0;
    while i < lines.len()
        invariant
            i <= lines.len(),
            out@ == rendered(texts(lines@).take(i as int)),
        decreases lines.len() - i,
    {
        proof {
            assert(texts(lines@).take(i + 1).drop_last() =~= texts(lines@).take(i as int));
        }
        out.append(lines[i].as_str());
        out.push('\n');
        i += 1;
    }
    proof {
        assert(texts(lines@).take(i as int) =~= texts(lines@));
    }
    out
}

} // verus!
