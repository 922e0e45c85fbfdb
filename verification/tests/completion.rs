use wmish::completion::CommandCompleter;

fn names(line: &str) -> (usize, Vec<String>) {
    CommandCompleter::new().complete(line)
}

#[test]
fn completes_by_prefix_in_order() {
    assert_eq!(names("s"), (0, vec!["SHOW".to_string(), "SELECT".to_string()]));
    assert_eq!(names("ex"), (0, vec!["EXIT".to_string()]));
    assert_eq!(names("Cl"), (0, vec!["CLASSES".to_string()]));
    assert_eq!(names("x"), (0, vec![]));
}

#[test]
fn empty_line_offers_every_command() {
    let expected: Vec<String> = ["NAMESPACE", "CLASSES", "SHOW", "SELECT", "FORMAT", "CALL", "EXIT", "QUIT"]
        .iter()
        .map(|s| s.to_string())
        .collect();
    assert_eq!(names(""), (0, expected));
}

#[test]
fn no_completion_after_a_space() {
    assert_eq!(names("SHOW "), (0, vec![]));
    assert_eq!(names("s x"), (0, vec![]));
}

#[test]
fn line_is_upper_cased_by_unicode_rules() {
    // U+017F LATIN SMALL LETTER LONG S upper-cases to S.
    assert_eq!(names("\u{17f}h"), (0, vec!["SHOW".to_string()]));
    assert_eq!(names("sh"), (0, vec!["SHOW".to_string()]));
}

#[test]
fn prefix_filter_takes_given_prefix() {
    let c = CommandCompleter::new();
    assert_eq!(c.candidates_with_prefix("C"), vec!["CLASSES".to_string(), "CALL".to_string()]);
    assert_eq!(c.candidates_with_prefix("c"), Vec::<String>::new());
}
