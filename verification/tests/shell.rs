use workmux::shell::shell_escape;

#[test]
fn plain_text_is_quoted() {
    assert_eq!(shell_escape("wm-feature"), "'wm-feature'");
    assert_eq!(shell_escape(""), "''");
    assert_eq!(shell_escape("a b; $(c) \\ \"d\""), "'a b; $(c) \\ \"d\"'");
}

#[test]
fn single_quotes_are_escaped() {
    assert_eq!(shell_escape("it's"), "'it'\\''s'");
    assert_eq!(shell_escape("'"), "''\\'''");
    assert_eq!(shell_escape("''"), "''\\'''\\'''");
    assert_eq!(shell_escape("é'ü"), "'é'\\''ü'");
}

/// Reads one word the way a shell does.
fn unquote(input: &str) -> String {
    let mut word = String::new();
    let mut quoted = false;
    let mut escaped = false;
    for c in input.chars() {
        if escaped {
            word.push(c);
            escaped = false;
        } else if c == '\'' {
            quoted = !quoted;
        } else if c == '\\' && !quoted {
            escaped = true;
        } else {
            word.push(c);
        }
    }
    word
}

#[test]
fn quoted_text_is_read_back() {
    for s in ["", "a", "it's", "'''", "\\'", "a'b'c", "new\nline", "tab\t'"] {
        assert_eq!(unquote(&shell_escape(s)), s);
    }
}
