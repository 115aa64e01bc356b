//! The comparison key of a line: trim, then normalize, then truncate.

use vstd::prelude::*;
use crate::chars::{chars_of, string_between};

verus! {

/// Whether `c` has the Unicode property `White_Space`, as `char::is_whitespace`
/// reports it.
pub uninterp spec fn is_white_space(c: char) -> bool;

/// Unicode Normalization Form C of `s`, as the crate `unicode-normalization`
/// computes it.
pub uninterp spec fn nfc_form(s: Seq<char>) -> Seq<char>;

/// `char::is_whitespace` tells whether the scalar value has the Unicode
/// property `White_Space`. Nothing is claimed of which scalar values have it:
/// the answer only gets the name `is_white_space`.
pub assume_specification[ char::is_whitespace ](c: char) -> (r: bool)
    ensures
        r == is_white_space(c),
;

/// Calls `UnicodeNormalization::nfc` of the crate `unicode-normalization` on
/// `s` and collects what the iterator yields. Nothing is claimed of the
/// result but that it depends on the scalar values of `s` alone.
#[verifier::external_body]
fn nfc(s: &str) -> (out: String)
    ensures
        out@ == nfc_form(s@),
{
    unicode_normalization::UnicodeNormalization::nfc(s).collect::<String>()
}

/// `s` without its leading whitespace.
pub open spec fn trim_start(s: Seq<char>) -> Seq<char>
    decreases s.len(),
{
    if s.len() > 0 && is_white_space(s[0]) {
        trim_start(s.skip(1))
    } else {
        s
    }
}

/// `s` without its trailing whitespace.
pub open spec fn trim_end(s: Seq<char>) -> Seq<char>
    decreases s.len(),
{
    if s.len() > 0 && is_white_space(s.last()) {
        trim_end(s.drop_last())
    } else {
        s
    }
}

/// `s` without leading and trailing whitespace.
pub open spec fn trimmed(s: Seq<char>) -> Seq<char> {
    trim_end(trim_start(s))
}

/// A line is blank when nothing is left of it after trimming.
pub open spec fn is_blank(line: Seq<char>) -> bool {
    trimmed(line).len() == 0
}

/// Normalization Form C of `s`; the empty sequence stays empty.
pub open spec fn normalized(s: Seq<char>) -> Seq<char> {
    if s.len() == 0 {
        s
    } else {
        nfc_form(s)
    }
}

/// The first `limit` scalar values of `s`, or all of `s` where it has no more
/// than that or no limit is set.
pub open spec fn truncated(s: Seq<char>, limit: Option<usize>) -> Seq<char> {
    match limit {
        Some(n) => if n < s.len() {
            s.take(n as int)
        } else {
            s
        },
        None => s,
    }
}

/// The comparison key of `line` under `limit`.
pub open spec fn key_of(line: Seq<char>, limit: Option<usize>) -> Seq<char> {
    truncated(normalized(trimmed(line)), limit)
}

/// Where the trimmed part of `chars` begins and ends: `chars[start..end]` is
/// `trimmed(chars)`.
pub fn trim_bounds(chars: &Vec<char>) -> (bounds: (usize, usize))
    ensures
        bounds.0 <= bounds.1 <= chars@.len(),
        chars@.subrange(bounds.0 as int, bounds.1 as int) == trimmed(chars@),
{
    let n = chars.len();
    let mut start: usize = 0;
    proof {
        assert(chars@.skip(0) =~= chars@);
    }
    while start < n && chars[start].is_whitespace()
        invariant
            n == chars@.len(),
            start <= n,
            trim_start(chars@) == trim_start(chars@.skip(start as int)),
        decreases n - start,
    {
        proof {
            assert(chars@.skip(start as int).skip(1) =~= chars@.skip(start + 1));
        }
        start += 1;
    }
    proof {
        assert(trim_start(chars@) =~= chars@.subrange(start as int, n as int));
    }
    let mut end: usize = n;
    while end > start && chars[end - 1].is_whitespace()
        invariant
            n == chars@.len(),
            start <= end <= n,
            trimmed(chars@) == trim_end(chars@.subrange(start as int, end as int)),
        decreases end - start,
    {
        proof {
            assert(chars@.subrange(start as int, end as int).drop_last() =~= chars@.subrange(
                start as int,
                end - 1,
            ));
        }
        end -= 1;
    }
    (start, end)
}

/// `line` without leading and trailing whitespace.
pub fn trim_line(line: &str) -> (out: String)
    ensures
        out@ == trimmed(line@),
{
    let chars = chars_of(line);
    let (start, end) = trim_bounds(&chars);
    string_between(&chars, start, end)
}

/// `s` in Normalization Form C.
pub fn normalize(s: &str) -> (out: String)
    ensures
        out@ == normalized(s@),
{
    if s.is_empty() {
        String::new()
    } else {
        nfc(s)
    }
}

/// `s` cut to its first `limit` scalar values.
pub fn truncate(s: String, limit: Option<usize>) -> (out: String)
    ensures
        out@ == truncated(s@, limit),
{
    match limit {
        None => s,
        Some(n) => {
            let chars = chars_of(s.as_str());
            if n < chars.len() {
                string_between(&chars, 0, n)
            } else {
                s
            }
        },
    }
}

/// The comparison key of `line`: surrounding whitespace removed, then
/// Normalization Form C, then the first `limit` scalar values of that.
pub fn comparison_key(line: &str, limit: Option<usize>) -> (key: String)
    ensures
        key@ == key_of(line@, limit),
        is_blank(line@) ==> key@.len() == 0,
{
    let bare = trim_line(line);
    let normal = normalize(bare.as_str());
    truncate(normal, limit)
}

} // verus!
