use markup_swift::text::{is_blank, is_space_char, truncate, word_and_line_counts};

#[test]
fn truncate_keeps_short_names() {
    assert_eq!(truncate("notes.md", 10), "notes.md");
    assert_eq!(truncate("0123456789", 10), "0123456789");
}

#[test]
fn truncate_cuts_long_names_with_an_ellipsis() {
    assert_eq!(truncate("a_very_long_name.md", 10), "a_very_lo\u{2026}");
    assert_eq!(truncate("01234567890", 10).chars().count(), 10);
    assert_eq!(truncate("abc", 1), "\u{2026}");
    assert_eq!(truncate("abc", 0), "\u{2026}");
    assert_eq!(truncate("", 0), "");
}

#[test]
fn truncate_counts_characters_not_bytes() {
    assert_eq!(truncate("\u{00e9}t\u{00e9}", 3), "\u{00e9}t\u{00e9}");
    assert_eq!(truncate("\u{00e9}t\u{00e9}s", 3), "\u{00e9}t\u{2026}");
}

#[test]
fn word_and_line_counts_match_std() {
    let samples = [
        "",
        "hello world\nsecond line",
        "a\n",
        "\n\n",
        "  leading and trailing  ",
        "tab\tseparated\twords",
        "\u{3000}ideographic\u{3000}space",
        "no newline at end",
        "crlf\r\nline",
    ];
    for s in samples {
        let (w, l) = word_and_line_counts(s);
        assert_eq!(w, s.split_whitespace().count(), "words of {:?}", s);
        assert_eq!(l, s.lines().count(), "lines of {:?}", s);
    }
}

#[test]
fn word_and_line_counts_exact_values() {
    assert_eq!(word_and_line_counts("hello world\nsecond line"), (4, 2));
    assert_eq!(word_and_line_counts(""), (0, 0));
    assert_eq!(word_and_line_counts("a\n"), (1, 1));
    assert_eq!(word_and_line_counts("\n\n"), (0, 2));
}

#[test]
fn whitespace_matches_std() {
    for c in ['\t', '\n', '\r', ' ', '\u{85}', '\u{a0}', '\u{1680}', '\u{2003}', '\u{2028}', '\u{3000}', 'a', '_', '\u{200b}', '\u{feff}'] {
        assert_eq!(is_space_char(c), c.is_whitespace(), "{:?}", c);
    }
    assert!(is_blank(" \t\n"));
    assert!(is_blank(""));
    assert!(!is_blank(" x "));
}
