use transcribe_server::text::{join_parts, trimmed};

#[test]
fn joins_with_single_spaces() {
    assert_eq!(join_parts(&["a", "b", "c"]), "a b c");
}

#[test]
fn skips_empty_parts() {
    assert_eq!(join_parts(&["a", "", "b", ""]), "a b");
}

#[test]
fn all_empty_yields_empty() {
    assert_eq!(join_parts(&["", ""]), "");
    assert_eq!(join_parts(&[]), "");
}

#[test]
fn trims_surrounding_whitespace() {
    assert_eq!(join_parts(&[" a ", "b"]), "a  b");
    assert_eq!(join_parts(&[" a "]), "a");
}

#[test]
fn trim_matches_std_on_unicode_whitespace() {
    for s in ["  x ", "\t\n y \r", "\u{3000}z\u{2009}", "\u{85}a b\u{a0}", "", "   ", "no-space"] {
        assert_eq!(trimmed(s), s.trim(), "{s:?}");
    }
}

#[test]
fn trimming_twice_is_trimming_once() {
    for s in ["  x ", "\u{2028} y\u{202f}", ""] {
        assert_eq!(trimmed(&trimmed(s)), trimmed(s));
    }
}
