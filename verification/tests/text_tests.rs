use kakuyomu_dump::text::{count_in_prefix, find_last, str_eq, str_range_eq, trim_str};

#[test]
fn trim_removes_surrounding_whitespace() {
    assert_eq!(trim_str("  abc\t"), "abc");
    assert_eq!(trim_str("\n\r x \u{3000}"), "x");
    assert_eq!(trim_str(""), "");
    assert_eq!(trim_str("   "), "");
    assert_eq!(trim_str("a b"), "a b");
}

#[test]
fn trim_covers_the_unicode_whitespace_set() {
    assert_eq!(trim_str("\u{a0}題\u{2002}"), "題");
    assert_eq!(trim_str("\u{2028}\u{205f}x\u{85}"), "x");
    assert_eq!(trim_str("\u{200b}x"), "\u{200b}x");
}

#[test]
fn find_last_searches_backward_within_prefix() {
    assert_eq!(find_last("a.b.c", '.', 5), Some(3));
    assert_eq!(find_last("a.b.c", '.', 3), Some(1));
    assert_eq!(find_last("a.b.c", '.', 1), None);
    assert_eq!(find_last("abc", 'z', 3), None);
    assert_eq!(find_last("", 'z', 0), None);
    assert_eq!(find_last("（a（b", '（', 4), Some(2));
}

#[test]
fn count_in_prefix_counts_occurrences() {
    assert_eq!(count_in_prefix("a）b）c", '）', 5), 2);
    assert_eq!(count_in_prefix("a）b）c", '）', 2), 1);
    assert_eq!(count_in_prefix("a）b）c", '）', 0), 0);
}

#[test]
fn string_comparisons_are_by_characters() {
    assert!(str_eq("abc", "abc"));
    assert!(!str_eq("abc", "abd"));
    assert!(!str_eq("abc", "ab"));
    assert!(str_eq("", ""));
    assert!(str_range_eq("xabcy", 1, 4, "abc"));
    assert!(!str_range_eq("xabcy", 1, 4, "abd"));
    assert!(!str_range_eq("xabcy", 1, 3, "abc"));
}
