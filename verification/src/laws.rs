//! What holds of keys, lines and classifications, whatever the input.

use vstd::prelude::*;
use crate::comparator::{found_of, index_of, is_found, missing_of};
use crate::decoder::{bom_of, decodes_cleanly, decoding_in, decoding_of, TextEncoding};
use crate::key::{
    is_blank, is_white_space, key_of, normalized, trim_end, trim_start, trimmed, truncated,
};
use crate::lines::{break_width, first_break, is_line_break, lemma_first_break, lines_of};

verus! {

/// The key is a function of the line and the limit: the same line under the
/// same limit has the same key, however often it is computed.
pub proof fn lemma_key_deterministic(a: Seq<char>, b: Seq<char>, limit: Option<usize>)
    requires
        a == b,
    ensures
        key_of(a, limit) == key_of(b, limit),
{
}

/// The key is the trimmed line, normalized, and only then truncated; under a
/// limit it has at most that many scalar values.
pub proof fn lemma_key_order(line: Seq<char>, limit: Option<usize>)
    ensures
        key_of(line, limit) == truncated(normalized(trimmed(line)), limit),
        limit matches Some(n) ==> key_of(line, limit).len() <= n,
        limit matches Some(n) ==> key_of(line, limit).is_prefix_of(key_of(line, None)),
{
}

/// A blank line has the empty key, and so counts as found against every
/// index.
pub proof fn lemma_blank_line_found(line: Seq<char>, index: Set<Seq<char>>, limit: Option<usize>)
    requires
        is_blank(line),
    ensures
        key_of(line, limit).len() == 0,
        is_found(line, index, limit),
{
}

/// A blank line never stands among the missing lines, and where it is one of
/// the lines it stands among the found ones.
pub proof fn lemma_blank_never_missing(
    lines: Seq<Seq<char>>,
    index: Set<Seq<char>>,
    limit: Option<usize>,
    line: Seq<char>,
)
    requires
        is_blank(line),
    ensures
        !missing_of(lines, index, limit).contains(line),
        lines.contains(line) ==> found_of(lines, index, limit).contains(line),
{
    let wanted = |l: Seq<char>| is_found(l, index, limit);
    let unwanted = |l: Seq<char>| !is_found(l, index, limit);
    lemma_blank_line_found(line, index, limit);
    if missing_of(lines, index, limit).contains(line) {
        let i = choose|i: int|
            0 <= i < lines.filter(unwanted).len() && lines.filter(unwanted)[i] == line;
        lines.lemma_filter_pred(unwanted, i);
    }
    if lines.contains(line) {
        let i = choose|i: int| 0 <= i < lines.len() && lines[i] == line;
        lines.lemma_filter_contains(wanted, i);
    }
}

/// No key in an index is empty, and each is the key of one of the lines.
pub proof fn lemma_index_keys(lines: Seq<Seq<char>>, limit: Option<usize>, key: Seq<char>)
    requires
        index_of(lines, limit).contains(key),
    ensures
        key.len() > 0,
        exists|i: int| 0 <= i < lines.len() && #[trigger] key_of(lines[i], limit) == key,
{
}

/// A line that stands in the haystack a second time adds nothing to the
/// index: only presence counts, not how often a line occurs.
pub proof fn lemma_repeated_line_adds_nothing(
    lines: Seq<Seq<char>>,
    limit: Option<usize>,
    i: int,
)
    requires
        0 <= i < lines.len(),
    ensures
        index_of(lines.push(lines[i]), limit) == index_of(lines, limit),
{
    let more = lines.push(lines[i]);
    assert forall|k: Seq<char>| index_of(more, limit).contains(k) implies index_of(
        lines,
        limit,
    ).contains(k) by {
        let j = choose|j: int| 0 <= j < more.len() && #[trigger] key_of(more[j], limit) == k;
        if j < lines.len() {
            assert(key_of(lines[j], limit) == k);
        } else {
            assert(key_of(lines[i], limit) == k);
        }
    }
    assert forall|k: Seq<char>| index_of(lines, limit).contains(k) implies index_of(
        more,
        limit,
    ).contains(k) by {
        let j = choose|j: int| 0 <= j < lines.len() && #[trigger] key_of(lines[j], limit) == k;
        assert(key_of(more[j], limit) == k);
    }
    assert(index_of(more, limit) =~= index_of(lines, limit));
}

/// A line that is not blank by its key is found exactly when one of the
/// haystack's lines has the same key.
pub proof fn lemma_found_iff_shared_key(
    line: Seq<char>,
    haystack: Seq<Seq<char>>,
    limit: Option<usize>,
)
    requires
        key_of(line, limit).len() > 0,
    ensures
        is_found(line, index_of(haystack, limit), limit) <==> exists|i: int|
            0 <= i < haystack.len() && #[trigger] key_of(haystack[i], limit) == key_of(
                line,
                limit,
            ),
{
}

/// Of three lines of which only the middle one is not found, the found lines
/// are the first and the third in that order, and the missing lines are the
/// middle one alone, each as it was written.
pub proof fn lemma_order_preserved(
    a: Seq<char>,
    b: Seq<char>,
    c: Seq<char>,
    index: Set<Seq<char>>,
    limit: Option<usize>,
)
    requires
        is_found(a, index, limit),
        !is_found(b, index, limit),
        is_found(c, index, limit),
    ensures
        found_of(seq![a, b, c], index, limit) == seq![a, c],
        missing_of(seq![a, b, c], index, limit) == seq![b],
{
    reveal_with_fuel(Seq::filter, 4);
    assert(seq![a, b, c].drop_last() =~= seq![a, b]);
    assert(seq![a, b].drop_last() =~= seq![a]);
}

/// Classifying one text after another gives the found lines of the first
/// followed by those of the second, and likewise the missing lines.
pub proof fn lemma_classification_concat(
    first: Seq<Seq<char>>,
    second: Seq<Seq<char>>,
    index: Set<Seq<char>>,
    limit: Option<usize>,
)
    ensures
        found_of(first + second, index, limit) == found_of(first, index, limit) + found_of(
            second,
            index,
            limit,
        ),
        missing_of(first + second, index, limit) == missing_of(first, index, limit) + missing_of(
            second,
            index,
            limit,
        ),
{
    Seq::filter_distributes_over_add(first, second, |l: Seq<char>| is_found(l, index, limit));
    Seq::filter_distributes_over_add(first, second, |l: Seq<char>| !is_found(l, index, limit));
}

/// Every line is either found or missing: the two outcomes together have as
/// many lines as the needle.
pub proof fn lemma_every_line_classified(
    lines: Seq<Seq<char>>,
    index: Set<Seq<char>>,
    limit: Option<usize>,
)
    ensures
        found_of(lines, index, limit).len() + missing_of(lines, index, limit).len()
            == lines.len(),
    decreases lines.len(),
{
    reveal(Seq::filter);
    if lines.len() > 0 {
        lemma_every_line_classified(lines.drop_last(), index, limit);
    }
}

/// No line holds a line break.
pub proof fn lemma_lines_hold_no_break(text: Seq<char>)
    ensures
        forall|i: int, j: int|
            0 <= i < lines_of(text).len() && 0 <= j < lines_of(text)[i].len()
                ==> !is_line_break(#[trigger] lines_of(text)[i][j]),
    decreases text.len(),
{
    if text.len() > 0 {
        lemma_first_break(text);
        let n = first_break(text) as int;
        if n < text.len() {
            let rest = text.skip(n + break_width(text, n));
            lemma_lines_hold_no_break(rest);
            assert forall|i: int, j: int|
                0 <= i < lines_of(text).len() && 0 <= j < lines_of(text)[i].len()
                    implies !is_line_break(#[trigger] lines_of(text)[i][j]) by {
                if i > 0 {
                    assert(lines_of(text)[i] == lines_of(rest)[i - 1]);
                }
            }
        }
    }
}

/// A byte-order mark decides the encoding, whether or not the rest decodes
/// cleanly.
pub proof fn lemma_mark_decides(bytes: Seq<u8>, encoding: TextEncoding)
    requires
        bom_of(bytes) == Some(encoding),
    ensures
        decoding_of(bytes) == decoding_in(encoding, bytes),
{
}

/// The text is always the decoding of the bytes in the encoding that is
/// reported with it.
pub proof fn lemma_text_is_in_reported_encoding(bytes: Seq<u8>)
    ensures
        decoding_of(bytes) == decoding_in(decoding_of(bytes).encoding, bytes),
{
}

/// Without a mark the first encoding in line that decodes cleanly is taken;
/// errors are reported only where none of the three does, and the text is
/// then the UTF-8 decoding.
pub proof fn lemma_errors_only_as_last_resort(bytes: Seq<u8>)
    requires
        bom_of(bytes) is None,
    ensures
        decoding_of(bytes).had_errors <==> {
            &&& !decodes_cleanly(TextEncoding::Utf8, bytes)
            &&& !decodes_cleanly(TextEncoding::Utf16Le, bytes)
            &&& !decodes_cleanly(TextEncoding::Utf16Be, bytes)
        },
        decoding_of(bytes).had_errors ==> decoding_of(bytes).encoding == TextEncoding::Utf8,
        decodes_cleanly(TextEncoding::Utf8, bytes) ==> decoding_of(bytes).encoding
            == TextEncoding::Utf8,
        decoding_of(bytes).encoding == TextEncoding::Utf16Be ==> !decodes_cleanly(
            TextEncoding::Utf16Le,
            bytes,
        ),
{
}

/// Trimming at the front drops a stretch of whitespace and nothing else, and
/// what is left does not begin with whitespace.
pub proof fn lemma_trim_start(s: Seq<char>) -> (k: int)
    ensures
        0 <= k <= s.len(),
        trim_start(s) == s.skip(k),
        forall|i: int| 0 <= i < k ==> is_white_space(#[trigger] s[i]),
        k < s.len() ==> !is_white_space(s[k]),
    decreases s.len(),
{
    if s.len() > 0 && is_white_space(s[0]) {
        let rest = s.skip(1);
        let k = lemma_trim_start(rest);
        assert forall|i: int| 0 <= i < k + 1 implies is_white_space(#[trigger] s[i]) by {
            if i > 0 {
                assert(s[i] == rest[i - 1]);
            }
        }
        k + 1
    } else {
        0
    }
}

/// Trimming at the end drops a stretch of whitespace and nothing else, and
/// what is left does not end with whitespace.
pub proof fn lemma_trim_end(s: Seq<char>) -> (k: int)
    ensures
        0 <= k <= s.len(),
        trim_end(s) == s.take(k),
        forall|i: int| k <= i < s.len() ==> is_white_space(#[trigger] s[i]),
        k > 0 ==> !is_white_space(s[k - 1]),
    decreases s.len(),
{
    if s.len() > 0 && is_white_space(s.last()) {
        let rest = s.drop_last();
        let k = lemma_trim_end(rest);
        assert forall|i: int| k <= i < s.len() implies is_white_space(#[trigger] s[i]) by {
            if i < s.len() - 1 {
                assert(s[i] == rest[i]);
            }
        }
        k
    } else {
        s.len() as int
    }
}

/// A trimmed line neither begins nor ends with whitespace, and trimming it
/// again changes nothing.
pub proof fn lemma_trimmed_is_bare(s: Seq<char>)
    ensures
        trimmed(s).len() > 0 ==> !is_white_space(trimmed(s).first()) && !is_white_space(
            trimmed(s).last(),
        ),
        trimmed(trimmed(s)) == trimmed(s),
{
    let front = lemma_trim_start(s);
    let back = lemma_trim_end(trim_start(s));
    if trimmed(s).len() > 0 {
        assert(trimmed(s).first() == s[front]);
        assert(trimmed(s).last() == s[front + back - 1]);
    }
}

} // verus!
