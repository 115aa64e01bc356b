use compar::comparator::{
    build_index, classify, compare, line_is_found, ClassificationResult, HaystackIndex,
};

fn owned(lines: &[&str]) -> Vec<String> {
    lines.iter().map(|l| l.to_string()).collect()
}

#[test]
fn blank_needle_lines_are_always_found() {
    let empty = build_index("", None);
    assert!(line_is_found("", &empty, None));
    assert!(line_is_found("   ", &empty, None));
    assert!(line_is_found("\t \u{a0}", &empty, Some(2)));
    let other = build_index("x\ny\n", None);
    assert!(line_is_found("", &other, None));
    let result = classify("\n  \n\t\nq\n", &empty, None);
    assert_eq!(result.found, owned(&["", "  ", "\t"]));
    assert_eq!(result.missing, owned(&["q"]));
}

#[test]
fn repeated_haystack_lines_collapse() {
    let index = build_index("x\nx\ny\n", None);
    assert_eq!(index.len(), 2);
    assert!(index.contains("x"));
    assert!(index.contains("y"));
    assert!(line_is_found("x", &index, None));
}

#[test]
fn blank_haystack_lines_leave_no_key() {
    let index = build_index("\n  \nx\n\n", None);
    assert_eq!(index.len(), 1);
    assert!(!index.contains(""));
}

#[test]
fn new_index_is_empty() {
    let index = HaystackIndex::new();
    assert_eq!(index.len(), 0);
    assert!(!index.contains("x"));
}

#[test]
fn add_line_stores_the_key_not_the_line() {
    let mut index = HaystackIndex::new();
    index.add_line("  Cafe\u{301}-au-lait ", Some(4));
    assert_eq!(index.len(), 1);
    assert!(index.contains("Caf\u{e9}"));
    assert!(!index.contains("  Cafe\u{301}-au-lait "));
    index.add_line("   ", Some(4));
    assert_eq!(index.len(), 1);
    index.add_line("Caf\u{e9} noir", Some(4));
    assert_eq!(index.len(), 1);
}

#[test]
fn order_of_the_needle_is_preserved() {
    let index = build_index("a\nc\n", None);
    let result = classify(" a\n b \nc \n", &index, None);
    assert_eq!(result.missing, owned(&[" b "]));
    assert_eq!(result.found, owned(&[" a", "c "]));
}

#[test]
fn end_to_end_without_limit() {
    let result = compare("foo\nbar\n\n", "foo\nbaz\n", None);
    assert_eq!(result.missing, owned(&["bar"]));
    assert_eq!(result.found, owned(&["foo", ""]));
    assert_eq!(result.selected(false), &owned(&["bar"]));
    assert_eq!(result.selected(true), &owned(&["foo", ""]));
}

#[test]
fn length_limit_compares_prefixes() {
    let result = compare("hello-123\n", "hello-999\n", Some(5));
    assert_eq!(result.found, owned(&["hello-123"]));
    assert!(result.missing.is_empty());
    let index = build_index("hello-999", Some(5));
    assert!(index.contains("hello"));
    assert!(line_is_found("hello-123", &index, Some(5)));
    assert!(!line_is_found("hello-123", &index, Some(7)));
}

#[test]
fn without_limit_the_whole_line_counts() {
    let result = compare("hello-123\n", "hello-999\n", None);
    assert_eq!(result.missing, owned(&["hello-123"]));
    assert!(result.found.is_empty());
}

#[test]
fn limit_zero_finds_every_line() {
    let result = compare("a\nb\n", "", Some(0));
    assert_eq!(result.found, owned(&["a", "b"]));
    assert!(result.missing.is_empty());
}

#[test]
fn equivalent_forms_match_across_files() {
    let result = compare("Cafe\u{301}\r\nth\u{e9}\r\n", "  Caf\u{e9}  \n", None);
    assert_eq!(result.found, owned(&["Cafe\u{301}"]));
    assert_eq!(result.missing, owned(&["th\u{e9}"]));
}

#[test]
fn repeated_needle_lines_are_each_reported() {
    let result = compare("a\nb\na\nb\n", "a\n", None);
    assert_eq!(result.found, owned(&["a", "a"]));
    assert_eq!(result.missing, owned(&["b", "b"]));
}

#[test]
fn every_needle_line_lands_in_one_outcome() {
    let needle = "one\ntwo\n\nthree\n four\n";
    let result = compare(needle, "two\nfour\n", None);
    assert_eq!(result.found.len() + result.missing.len(), 5);
    assert_eq!(result.found, owned(&["two", "", " four"]));
    assert_eq!(result.missing, owned(&["one", "three"]));
}

#[test]
fn classification_is_the_same_each_time() {
    let index = build_index("a\nb\n", Some(1));
    let first = classify("apple\ncherry\n", &index, Some(1));
    let second = classify("apple\ncherry\n", &index, Some(1));
    assert_eq!(first.found, second.found);
    assert_eq!(first.missing, second.missing);
    assert_eq!(first.found, owned(&["apple"]));
    assert_eq!(first.missing, owned(&["cherry"]));
}

#[test]
fn new_result_holds_no_line() {
    let result = ClassificationResult::new();
    assert!(result.found.is_empty());
    assert!(result.missing.is_empty());
}

#[test]
fn record_appends_the_line_as_written() {
    let index = build_index("a\n", None);
    let mut result = ClassificationResult::new();
    assert!(result.record("  a  ", &index, None));
    assert!(!result.record(" b", &index, None));
    assert!(result.record("   ", &index, None));
    assert!(!result.record("c", &index, None));
    assert_eq!(result.found, owned(&["  a  ", "   "]));
    assert_eq!(result.missing, owned(&[" b", "c"]));
}

#[test]
fn recording_line_by_line_equals_classifying_the_text() {
    let needle = "one\r\ntwo\n\nthree\rfour";
    let index = build_index("two\nfour\n", Some(3));
    let whole = classify(needle, &index, Some(3));
    let mut stepwise = ClassificationResult::new();
    for line in compar::lines::split_lines(needle) {
        stepwise.record(&line, &index, Some(3));
    }
    assert_eq!(whole.found, stepwise.found);
    assert_eq!(whole.missing, stepwise.missing);
    assert_eq!(whole.found, owned(&["two", "", "four"]));
    assert_eq!(whole.missing, owned(&["one", "three"]));
}
