use wmish::text::{contains_char, has_prefix, join_strings, trim_str};

#[test]
fn trims_unicode_whitespace() {
    assert_eq!(trim_str(" \u{2003}a b\n\u{85}"), "a b");
    assert_eq!(trim_str("   "), "");
    assert_eq!(trim_str("x"), "x");
}

#[test]
fn joins() {
    let parts = vec!["a".to_string(), "".to_string(), "c".to_string()];
    assert_eq!(join_strings(&parts, ","), "a,,c");
    assert_eq!(join_strings(&vec![], ","), "");
}

#[test]
fn prefixes_and_contents() {
    assert!(has_prefix("SELECT x", "SELECT"));
    assert!(!has_prefix("SELEC", "SELECT"));
    assert!(contains_char("a b", ' '));
    assert!(!contains_char("ab", ' '));
}

