//! Deciding which lines of one text occur in another.
//!
//! The haystack becomes a set of comparison keys. A needle line is found when
//! its key is in that set, and also when its key is empty: a blank line is
//! never reported missing. Both outcomes keep the needle's lines as they were
//! written and in the order in which they stood.

use vstd::prelude::*;
use vstd::hash_set::StringHashSet;
use crate::key::{comparison_key, is_blank, key_of};
use crate::lines::{lines_of, split_lines, texts};

verus! {

/// The set of the non-empty keys of `lines`.
pub open spec fn index_of(lines: Seq<Seq<char>>, limit: Option<usize>) -> Set<Seq<char>> {
    Set::new(
        |k: Seq<char>|
            k.len() > 0 && exists|i: int|
                0 <= i < lines.len() && #[trigger] key_of(lines[i], limit) == k,
    )
}

/// Whether `line` counts as found against the keys `index`: its key is empty
/// or is one of them.
pub open spec fn is_found(line: Seq<char>, index: Set<Seq<char>>, limit: Option<usize>) -> bool {
    key_of(line, limit).len() == 0 || index.contains(key_of(line, limit))
}

/// The lines of `lines` that count as found, in their order.
pub open spec fn found_of(
    lines: Seq<Seq<char>>,
    index: Set<Seq<char>>,
    limit: Option<usize>,
) -> Seq<Seq<char>> {
    lines.filter(|line: Seq<char>| is_found(line, index, limit))
}

/// The lines of `lines` that do not count as found, in their order.
pub open spec fn missing_of(
    lines: Seq<Seq<char>>,
    index: Set<Seq<char>>,
    limit: Option<usize>,
) -> Seq<Seq<char>> {
    lines.filter(|line: Seq<char>| !is_found(line, index, limit))
}

/// The comparison keys of a haystack.
pub struct HaystackIndex {
    keys: StringHashSet,
}

impl View for HaystackIndex {
    type V = Set<Seq<char>>;

    closed spec fn view(&self) -> Set<Seq<char>> {
        self.keys@
    }
}

/// The needle's lines, parted into those found and those missing.
#[derive(Debug)]
pub struct ClassificationResult {
    pub found: Vec<String>,
    pub missing: Vec<String>,
}

/// One more line adds its key to the index, unless the key is empty.
proof fn lemma_index_step(lines: Seq<Seq<char>>, limit: Option<usize>, i: int)
    requires
        0 <= i < lines.len(),
    ensures
        index_of(lines.take(i + 1), limit) == if key_of(lines[i], limit).len() > 0 {
            index_of(lines.take(i), limit).insert(key_of(lines[i], limit))
        } else {
            index_of(lines.take(i), limit)
        },
{
    let before = lines.take(i);
    let after = lines.take(i + 1);
    let key = key_of(lines[i], limit);
    let grown = if key.len() > 0 {
        index_of(before, limit).insert(key)
    } else {
        index_of(before, limit)
    };
    assert(after[i] == lines[i]);
    assert forall|k: Seq<char>| index_of(after, limit).contains(k) implies grown.contains(k) by {
        let j = choose|j: int| 0 <= j < after.len() && #[trigger] key_of(after[j], limit) == k;
        if j < i {
            assert(before[j] == after[j]);
        }
    }
    assert forall|k: Seq<char>| grown.contains(k) implies index_of(after, limit).contains(k) by {
        if k != key || key.len() == 0 {
            let j = choose|j: int| 0 <= j < before.len() && #[trigger] key_of(before[j], limit) == k;
            assert(after[j] == before[j]);
        }
    }
}

/// One more line goes to the end of the found lines or of the missing ones.
proof fn lemma_classify_step(
    lines: Seq<Seq<char>>,
    index: Set<Seq<char>>,
    limit: Option<usize>,
    i: int,
)
    requires
        0 <= i < lines.len(),
    ensures
        is_found(lines[i], index, limit) ==> {
            &&& found_of(lines.take(i + 1), index, limit) == found_of(
                lines.take(i),
                index,
                limit,
            ).push(lines[i])
            &&& missing_of(lines.take(i + 1), index, limit) == missing_of(
                lines.take(i),
                index,
                limit,
            )
        },
        !is_found(lines[i], index, limit) ==> {
            &&& found_of(lines.take(i + 1), index, limit) == found_of(lines.take(i), index, limit)
            &&& missing_of(lines.take(i + 1), index, limit) == missing_of(
                lines.take(i),
                index,
                limit,
            ).push(lines[i])
        },
{
    reveal(Seq::filter);
    assert(lines.take(i + 1).drop_last() =~= lines.take(i));
}

impl HaystackIndex {
    /// An index holds no empty key: a blank line stands for nothing.
    pub open spec fn wf(&self) -> bool {
        !self@.contains(Seq::<char>::empty())
    }

    /// The index without any key.
    pub fn new() -> (index: Self)
        ensures
            index@ == Set::<Seq<char>>::empty(),
            index.wf(),
    {
        HaystackIndex { keys: StringHashSet::new() }
    }

    /// How many keys the index holds.
    pub fn len(&self) -> (n: usize)
        ensures
            n == self@.len(),
    {
        self.keys.len()
    }

    /// Whether `key` is in the index.
    pub fn contains(&self, key: &str) -> (r: bool)
        ensures
            r == self@.contains(key@),
    {
        self.keys.contains(key)
    }

    /// Puts the key of `line` into the index, unless that key is empty.
    pub fn add_line(&mut self, line: &str, limit: Option<usize>)
        ensures
            final(self)@ == if key_of(line@, limit).len() > 0 {
                old(self)@.insert(key_of(line@, limit))
            } else {
                old(self)@
            },
            old(self).wf() ==> final(self).wf(),
    {
        let key = comparison_key(line, limit);
        if !key.as_str().is_empty() {
            self.keys.insert(key);
        }
    }
}

/// Builds the index of a haystack: the non-empty keys of its lines. A key that
/// several lines share is held once.
pub fn build_index(haystack: &str, limit: Option<usize>) -> (index: HaystackIndex)
    ensures
        index@ == index_of(lines_of(haystack@), limit),
        index.wf(),
{
    let lines = split_lines(haystack);
    let mut index = HaystackIndex::new();
    let mut i: usize = 0;
    while i < lines.len()
        invariant
            i <= lines.len(),
            index@ == index_of(texts(lines@).take(i as int), limit),
        decreases lines.len() - i,
    {
        proof {
            lemma_index_step(texts(lines@), limit, i as int);
        }
        index.add_line(lines[i].as_str(), limit);
        i += 1;
    }
    proof {
        assert(texts(lines@).take(i as int) =~= texts(lines@));
    }
    index
}

/// Whether `line` counts as found in `index`: a blank line always does, any
/// other line when its key is in the index.
pub fn line_is_found(line: &str, index: &HaystackIndex, limit: Option<usize>) -> (r: bool)
    ensures
        r == is_found(line@, index@, limit),
        is_blank(line@) ==> r,
{
    let key = comparison_key(line, limit);
    key.as_str().is_empty() || index.contains(key.as_str())
}

/// Parts the lines of `needle` into those found in `index` and those missing
/// from it. Each line is kept as it was written.
pub fn classify(needle: &str, index: &HaystackIndex, limit: Option<usize>) -> (result:
    ClassificationResult)
    ensures
        texts(result.found@) == found_of(lines_of(needle@), index@, limit),
        texts(result.missing@) == missing_of(lines_of(needle@), index@, limit),
{
    let lines = split_lines(needle);
    let mut result = ClassificationResult::new();
    let mut i: usize = 0;
    proof {
        reveal(Seq::filter);
        assert(texts(lines@).take(0).len() == 0);
    }
    while i < lines.len()
        invariant
            i <= lines.len(),
            texts(result.found@) == found_of(texts(lines@).take(i as int), index@, limit),
            texts(result.missing@) == missing_of(texts(lines@).take(i as int), index@, limit),
        decreases lines.len() - i,
    {
        proof {
            lemma_classify_step(texts(lines@), index@, limit, i as int);
        }
        result.record(lines[i].as_str(), index, limit);
        i += 1;
    }
    proof {
        assert(texts(lines@).take(i as int) =~= texts(lines@));
    }
    result
}

impl ClassificationResult {
    /// The outcome before any line was looked at.
    pub fn new() -> (result: Self)
        ensures
            result.found@.len() == 0,
            result.missing@.len() == 0,
    {
        ClassificationResult { found: Vec::new(), missing: Vec::new() }
    }

    /// Looks `line` up in `index` and puts it, as it was written, at the end
    /// of the found lines or of the missing ones. Tells whether it was found.
    pub fn record(&mut self, line: &str, index: &HaystackIndex, limit: Option<usize>) -> (found:
        bool)
        ensures
            found == is_found(line@, index@, limit),
            texts(final(self).found@) == if found {
                texts(old(self).found@).push(line@)
            } else {
                texts(old(self).found@)
            },
            texts(final(self).missing@) == if found {
                texts(old(self).missing@)
            } else {
                texts(old(self).missing@).push(line@)
            },
    {
        let found = line_is_found(line, index, limit);
        let kept = line.to_owned();
        if found {
            self.found.push(kept);
        } else {
            self.missing.push(kept);
        }
        found
    }

    /// The found lines where `want_found` is set, the missing lines otherwise.
    pub fn selected(&self, want_found: bool) -> (lines: &Vec<String>)
        ensures
            *lines == if want_found {
                self.found
            } else {
                self.missing
            },
    {
        if want_found {
            &self.found
        } else {
            &self.missing
        }
    }
}

/// Compares two texts: parts the lines of `needle` into those that have an
/// equivalent line in `haystack`, or are blank, and those that have none.
pub fn compare(needle: &str, haystack: &str, limit: Option<usize>) -> (result:
    ClassificationResult)
    ensures
        texts(result.found@) == found_of(
            lines_of(needle@),
            index_of(lines_of(haystack@), limit),
            limit,
        ),
        texts(result.missing@) == missing_of(
            lines_of(needle@),
            index_of(lines_of(haystack@), limit),
            limit,
        ),
{
    let index = build_index(haystack, limit);
    classify(needle, &index, limit)
}

} // verus!
