use orca::pattern::Pattern;
use orca::pattern::PatternError;

#[test]
fn pattern_new() {
    let pattern_str = "/baz/*";
    let pattern = Pattern::new(pattern_str).unwrap();
    assert_eq!(pattern.pattern, pattern_str);
    assert!(pattern.is_match("/baz/anything"));
    assert!(!pattern.is_match("/foo/bar"));
}

#[test]
fn pattern_regex_conversion() {
    let patterns = [
        ("/", r"^\/$"),
        ("/**", r"^\/.*$"),
        ("**", r"^.*$"),
        ("/foo", r"^\/foo$"),
        ("/foo/*.pdf", r"^\/foo\/[^/]*\.pdf$"),
        ("/foo/**", r"^\/foo\/.*$"),
        ("/foo/**/bar", r"^\/foo\/.*\/bar$"),
        ("/foo/*/bar", r"^\/foo\/[^/]*\/bar$"),
        ("/foo/???/bar", r"^\/foo\/[^/][^/][^/]\/bar$"),
    ];

    for (pattern_str, expected_regex) in &patterns {
        let pattern = Pattern::new(pattern_str).unwrap();
        assert_eq!(
            pattern.regex.as_str(),
            *expected_regex,
            "Failed for pattern: '{}'",
            pattern_str
        );
    }
}

#[test]
fn many_double_asterisks_not_allowed() {
    let pattern_str = "/foo/**/bar/**";
    let pattern = Pattern::new(pattern_str);
    assert!(pattern.is_err());
}

#[test]
fn two_adjacent_double_asterisks_not_allowed() {
    assert!(Pattern::new("****").is_err());
    assert!(matches!(Pattern::new("**/**"), Err(PatternError::InvalidPattern)));
}

#[test]
fn three_stars_are_one_double_and_one_single() {
    let pattern = Pattern::new("***").unwrap();
    assert_eq!(pattern.regex.as_str(), r"^.*[^/]*$");
    assert!(pattern.is_match("a/b/c"));
    assert!(pattern.is_match(""));
}

#[test]
fn single_star_stays_within_segment() {
    let pattern = Pattern::new("/foo/*").unwrap();
    assert!(pattern.is_match("/foo/bar"));
    assert!(!pattern.is_match("/foo/bar/baz"));
}

#[test]
fn single_star_matches_empty_run() {
    let pattern = Pattern::new("/foo/*").unwrap();
    assert!(pattern.is_match("/foo/"));
    assert!(!pattern.is_match("/foo"));
}

#[test]
fn double_star_crosses_separators() {
    let pattern = Pattern::new("/foo/**").unwrap();
    assert!(pattern.is_match("/foo/bar/baz"));
    assert!(pattern.is_match("/foo/bar"));
    assert!(pattern.is_match("/foo/"));
    assert!(!pattern.is_match("/foo"));
    assert!(!pattern.is_match("/foobar"));
    assert!(!pattern.is_match("/bar/foo"));
}

#[test]
fn question_marks_are_arity_exact() {
    let pattern = Pattern::new("/foo/???/bar").unwrap();
    assert!(pattern.is_match("/foo/abc/bar"));
    assert!(!pattern.is_match("/foo/ab/bar"));
    assert!(!pattern.is_match("/foo/abcd/bar"));
    assert!(!pattern.is_match("/foo/a/c/bar"));
}

#[test]
fn literal_pattern_matches_itself_only() {
    let pattern = Pattern::new("/health").unwrap();
    assert!(pattern.is_match("/health"));
    assert!(!pattern.is_match("/health/"));
    assert!(!pattern.is_match("/Health"));
    assert!(!pattern.is_match(""));
}

#[test]
fn empty_glob_matches_empty_path() {
    let pattern = Pattern::new("").unwrap();
    assert!(pattern.is_match(""));
    assert!(!pattern.is_match("/"));
}

#[test]
fn glob_roundtrip_preserves_behavior() {
    let first = Pattern::new("/baz/*").unwrap();
    let serialized = first.pattern.clone();
    let second = Pattern::new(serialized.as_str()).unwrap();
    assert_eq!(first.pattern, second.pattern);
    assert_eq!(first.regex, second.regex);
    for path in ["/baz/anything", "/baz/", "/baz", "/foo/bar", "/baz/a/b"] {
        assert_eq!(first.is_match(path), second.is_match(path));
    }
}

#[test]
fn dot_is_matched_literally() {
    let pattern = Pattern::new("/foo/*.pdf").unwrap();
    assert!(pattern.is_match("/foo/a.pdf"));
    assert!(pattern.is_match("/foo/.pdf"));
    assert!(!pattern.is_match("/foo/apdf"));
    assert!(!pattern.is_match("/foo/a:pdf"));
}

#[test]
fn plain_text_never_becomes_a_wildcard() {
    let pattern = Pattern::new("/x_DBLSTAR_y").unwrap();
    assert!(pattern.is_match("/x_DBLSTAR_y"));
    assert!(!pattern.is_match("/x/anything/y"));
    assert_eq!(pattern.regex.as_str(), r"^\/x_DBLSTAR_y$");
}
