use grabit::text::{
    capitalize_str, contains_str, eq_str, is_whitespace, replace_str, split_lines, starts_with_str,
    strip_prefix_str, trim_start_matches_str, trim_str,
};

#[test]
fn trim_removes_unicode_whitespace_on_both_ends() {
    assert_eq!(trim_str("  \t hello world \r\n"), "hello world");
    assert_eq!(trim_str("\u{3000}x\u{00A0}"), "x");
    assert_eq!(trim_str("   "), "");
    assert_eq!(trim_str(""), "");
    assert_eq!(trim_str("a b"), "a b");
}

#[test]
fn whitespace_matches_std() {
    for c in ['\t', '\n', ' ', '\u{85}', '\u{A0}', '\u{2003}', '\u{3000}', 'a', '0', '\u{200B}'] {
        assert_eq!(is_whitespace(c), c.is_whitespace(), "char {:?}", c);
    }
}

#[test]
fn contains_and_starts_with() {
    assert!(contains_str("yt-dlp: ERROR: nope", "ERROR"));
    assert!(!contains_str("all fine", "ERROR"));
    assert!(contains_str("abc", ""));
    assert!(starts_with_str("[Merger] Merging", "[Merger]"));
    assert!(!starts_with_str("[Merge", "[Merger]"));
    assert!(eq_str("finished", "finished"));
    assert!(!eq_str("finishe", "finished"));
}

#[test]
fn replace_all_occurrences() {
    assert_eq!(replace_str("ERROR: a ERROR: b", "ERROR:", ""), " a  b");
    assert_eq!(replace_str("aaa", "aa", "b"), "ba");
    assert_eq!(replace_str("none here", "ERROR:", ""), "none here");
}

#[test]
fn strip_and_trim_prefixes() {
    assert_eq!(strip_prefix_str("GRABIT_FILE::/tmp/a.mp4", "GRABIT_FILE::"), Some("/tmp/a.mp4".to_string()));
    assert_eq!(strip_prefix_str("other", "GRABIT_FILE::"), None);
    assert_eq!(trim_start_matches_str("ababc", "ab"), "c");
    assert_eq!(trim_start_matches_str("abc", ""), "abc");
}

#[test]
fn lines_match_std_lines() {
    for s in ["", "a", "a\n", "a\r\nb", "a\n\nb\n", "\r", "x\r", "a\r\r\nb", "\n\n"] {
        let want: Vec<String> = s.lines().map(|l| l.to_string()).collect();
        assert_eq!(split_lines(s), want, "input {:?}", s);
    }
}

#[test]
fn capitalize_upper_cases_an_ascii_first_letter() {
    assert_eq!(capitalize_str("item 3 of 12"), "Item 3 of 12");
    assert_eq!(capitalize_str("Item 3"), "Item 3");
    assert_eq!(capitalize_str("3 items"), "3 items");
    assert_eq!(capitalize_str(""), "");
    assert_eq!(capitalize_str("\u{e9}t\u{e9}"), "\u{e9}t\u{e9}");
}
