use workmux::text;

#[test]
fn white_space_is_that_of_unicode() {
    for c in '\0'..=char::MAX {
        assert_eq!(text::white_space(c), c.is_whitespace(), "{:?}", c);
    }
}

#[test]
fn lines_are_split_at_line_endings() {
    let cases = [
        "", "a", "a\n", "a\nb", "a\r\nb\r\n", "\n", "\n\n", "a\r", "a\r\n\r", "\r\n", "a\n\nb", "é\nü\r\n漢",
    ];
    for case in cases {
        let expected: Vec<String> = case.lines().map(|l| l.to_string()).collect();
        assert_eq!(text::split_lines(case), expected, "{:?}", case);
    }
    assert_eq!(text::split_lines("a\r\nb"), vec!["a", "b"]);
    assert_eq!(text::split_lines("a\r"), vec!["a\r"]);
}

#[test]
fn words_are_split_at_white_space() {
    let cases = ["", " ", "a", " a", "a ", " a  b\tc\n", "é\u{a0}ü\u{2003}x", "\u{3000}", "a\u{85}b"];
    for case in cases {
        let expected: Vec<String> = case.split_whitespace().map(|l| l.to_string()).collect();
        assert_eq!(text::split_words(case), expected, "{:?}", case);
    }
    assert_eq!(text::split_words("  a  b "), vec!["a", "b"]);
}

#[test]
fn white_space_at_the_ends_is_trimmed() {
    let cases = ["", " ", "a", " a b ", "\ta\r", "\u{a0}x\u{2028}", "  \n"];
    for case in cases {
        assert_eq!(text::trimmed(case), case.trim(), "{:?}", case);
        assert_eq!(text::trimmed(&text::trimmed(case)), case.trim());
    }
}

#[test]
fn parts_are_joined() {
    let parts: Vec<String> = vec!["a".to_string(), "b".to_string(), "c".to_string()];
    assert_eq!(text::joined(&parts, 0, " "), "a b c");
    assert_eq!(text::joined(&parts, 2, " "), "c");
    assert_eq!(text::joined(&parts, 3, " "), "");
    assert_eq!(text::split_words(&text::joined(&parts, 0, " ")), parts);
}

#[test]
fn numbers_are_written_in_decimal() {
    for n in [0u64, 7, 9, 10, 42, 100, 1234567890, u64::MAX] {
        assert_eq!(text::decimal_text(n), n.to_string());
    }
    assert_eq!(text::decimal_text(305), "305");
}

#[test]
fn texts_are_compared() {
    assert!(text::same("", ""));
    assert!(text::same("añb", "añb"));
    assert!(!text::same("a", "ab"));
    assert!(!text::same("ab", "aB"));
}
