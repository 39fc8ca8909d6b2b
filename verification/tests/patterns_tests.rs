use cx_terminal::patterns::PatternMatcher;

#[test]
fn test_python_project() {
    let matcher = PatternMatcher::new();
    let result = matcher.match_query("create a python project");
    assert!(result.is_some());
    assert!(result.unwrap().command.contains("cx new python"));
}

#[test]
fn test_react_app() {
    let matcher = PatternMatcher::new();
    let result = matcher.match_query("create a react app");
    assert!(result.is_some());
    assert!(result.unwrap().command.contains("cx new react"));
}

#[test]
fn test_save_work() {
    let matcher = PatternMatcher::new();
    let result = matcher.match_query("save my work");
    assert!(result.is_some());
    assert!(result.unwrap().command.contains("cx save"));
}

#[test]
fn test_extract_name() {
    let matcher = PatternMatcher::new();
    assert_eq!(
        matcher.extract_name("create a python project called my-app"),
        Some("my-app".to_string())
    );
    assert_eq!(
        matcher.extract_name("create react app \"my-frontend\""),
        Some("my-frontend".to_string())
    );
}

#[test]
fn test_extract_name_last_word() {
    let matcher = PatternMatcher::new();
    // No marker, no quotes: the last plausible word wins.
    assert_eq!(
        matcher.extract_name("please create a new rust project webserver"),
        Some("webserver".to_string())
    );
    // Only common words: nothing to suggest.
    assert_eq!(matcher.extract_name("create a new project"), None);
}

#[test]
fn test_match_query_prefers_higher_priority() {
    let matcher = PatternMatcher::new();
    // Both the three-keyword and the two-keyword python patterns match;
    // the three-keyword one has priority ten and must win.
    let m = matcher.match_query("create a python project").unwrap();
    assert_eq!(m.confidence, 10);
    assert_eq!(m.command, "cx new python {name}");
    assert!(m.needs_name);
}

#[test]
fn test_match_query_case_insensitive() {
    let matcher = PatternMatcher::new();
    let m = matcher.match_query("CREATE a PYTHON project").unwrap();
    assert_eq!(m.command, "cx new python {name}");
}

#[test]
fn test_match_query_no_match() {
    let matcher = PatternMatcher::new();
    assert!(matcher.match_query("how is the weather today").is_none());
    assert!(matcher.match_query("").is_none());
}

#[test]
fn test_match_query_keyword_inside_word() {
    let matcher = PatternMatcher::new();
    // Keywords match inside words: "dockerize" is itself a keyword, and
    // "snapshotting" still contains "snapshot".
    let m = matcher.match_query("dockerize this service").unwrap();
    assert_eq!(m.command, "cx new docker {name}");
    let m2 = matcher.match_query("snapshotting now").unwrap();
    assert_eq!(m2.command, "cx save {name}");
}

#[test]
fn test_match_query_list_templates() {
    let matcher = PatternMatcher::new();
    let m = matcher.match_query("list the templates").unwrap();
    assert_eq!(m.command, "cx new --list");
    assert!(!m.needs_name);
}
