use compar::chars::{chars_of, string_between};
use compar::key::{comparison_key, normalize, trim_bounds, trim_line, truncate};

#[test]
fn test_line_comparison_with_length() {
    let line1 = "abcde123";
    let line2 = "abcde456";

    let final_line1 = comparison_key(line1, Some(5));
    let final_line2 = comparison_key(line2, Some(5));

    assert_eq!(final_line1, "abcde");
    assert_eq!(final_line2, "abcde");
    assert_eq!(final_line1, final_line2);
}

#[test]
fn key_is_the_same_each_time() {
    let line = "  Cafe\u{301} au lait \t";
    assert_eq!(comparison_key(line, None), comparison_key(line, None));
    assert_eq!(comparison_key(line, Some(3)), comparison_key(line, Some(3)));
}

#[test]
fn key_trims_then_normalizes_then_truncates() {
    let precomposed = "  Caf\u{e9}123";
    let combining = "  Cafe\u{301}123";
    assert_eq!(comparison_key(precomposed, Some(4)), "Caf\u{e9}");
    assert_eq!(comparison_key(combining, Some(4)), "Caf\u{e9}");
    assert_eq!(comparison_key(precomposed, Some(4)), comparison_key(combining, Some(4)));
}

#[test]
fn key_without_limit_keeps_the_whole_line() {
    assert_eq!(comparison_key("  hello world  ", None), "hello world");
    assert_eq!(comparison_key("Cafe\u{301}", None), "Caf\u{e9}");
}

#[test]
fn key_of_a_blank_line_is_empty() {
    assert_eq!(comparison_key("", None), "");
    assert_eq!(comparison_key("   ", None), "");
    assert_eq!(comparison_key(" \t\u{a0}\u{3000} ", Some(3)), "");
}

#[test]
fn key_under_limit_zero_is_empty() {
    assert_eq!(comparison_key("abc", Some(0)), "");
}

#[test]
fn key_shorter_than_the_limit_is_kept_whole() {
    assert_eq!(comparison_key(" abc ", Some(3)), "abc");
    assert_eq!(comparison_key(" abc ", Some(10)), "abc");
    assert_eq!(comparison_key("abc", Some(usize::MAX)), "abc");
}

#[test]
fn truncation_counts_scalar_values_not_bytes() {
    assert_eq!(comparison_key("\u{e9}\u{e9}\u{e9}", Some(2)), "\u{e9}\u{e9}");
    assert_eq!(comparison_key("\u{1F600}xy", Some(1)), "\u{1F600}");
}

#[test]
fn truncation_may_split_a_grapheme_cluster() {
    // q with a combining acute has no precomposed form: two scalar values.
    assert_eq!(comparison_key("q\u{301}z", Some(1)), "q");
    assert_eq!(comparison_key("q\u{301}z", Some(2)), "q\u{301}");
}

#[test]
fn truncated_key_may_end_in_whitespace() {
    assert_eq!(comparison_key("ab cd", Some(3)), "ab ");
}

#[test]
fn trim_removes_unicode_whitespace_on_both_sides() {
    assert_eq!(trim_line("  a b  "), "a b");
    assert_eq!(trim_line("\t\u{2003}x\u{a0}\r\n"), "x");
    assert_eq!(trim_line("x"), "x");
    assert_eq!(trim_line(""), "");
    assert_eq!(trim_line(" \t "), "");
}

#[test]
fn trim_agrees_with_the_standard_library() {
    let samples = ["", " ", " a", "a ", " a b ", "\u{85}a\u{1680}", "\u{200b}a\u{200b}", "\n\ta\r"];
    for sample in samples {
        assert_eq!(trim_line(sample), sample.trim());
    }
}

#[test]
fn trim_bounds_delimit_the_trimmed_part() {
    assert_eq!(trim_bounds(&vec![' ', 'a', 'b', ' ', ' ']), (1, 3));
    assert_eq!(trim_bounds(&vec!['a']), (0, 1));
    assert_eq!(trim_bounds(&vec![' ', ' ']), (2, 2));
    assert_eq!(trim_bounds(&Vec::new()), (0, 0));
}

#[test]
fn normalize_composes_combining_sequences() {
    assert_eq!(normalize("e\u{301}"), "\u{e9}");
    assert_eq!(normalize("A\u{30a}"), "\u{c5}");
    assert_eq!(normalize("\u{212b}"), "\u{c5}");
    assert_eq!(normalize("plain"), "plain");
    assert_eq!(normalize(""), "");
}

#[test]
fn truncate_cuts_to_the_first_scalar_values() {
    assert_eq!(truncate(String::from("hello-123"), Some(5)), "hello");
    assert_eq!(truncate(String::from("hello"), Some(5)), "hello");
    assert_eq!(truncate(String::from("hello"), Some(0)), "");
    assert_eq!(truncate(String::from("hello"), None), "hello");
    assert_eq!(truncate(String::from("h\u{e9}llo"), Some(2)), "h\u{e9}");
}

#[test]
fn chars_and_strings_convert_both_ways() {
    assert_eq!(chars_of("a\u{e9}\u{1F600}"), vec!['a', '\u{e9}', '\u{1F600}']);
    assert_eq!(chars_of(""), Vec::<char>::new());
    let chars = vec!['h', 'e', 'l', 'l', 'o'];
    assert_eq!(string_between(&chars, 1, 4), "ell");
    assert_eq!(string_between(&chars, 0, 5), "hello");
    assert_eq!(string_between(&chars, 2, 2), "");
}
