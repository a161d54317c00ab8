use container_monitoring::pattern::{matches_pattern, matches_wildcard};

#[test]
fn test_star_matches_anything() {
    assert!(matches_pattern("cat", "*"));
    assert!(matches_pattern("", "*"));
    assert!(matches_pattern("a longer text", "*"));
}

#[test]
fn test_question_mark_matches_exactly_one_character() {
    assert!(matches_pattern("cat", "c?t"));
    assert!(!matches_pattern("coat", "c?t"));
    assert!(!matches_pattern("ct", "c?t"));
}

#[test]
fn test_empty_pattern_matches_only_empty_text() {
    assert!(matches_pattern("", ""));
    assert!(!matches_pattern("x", ""));
}

#[test]
fn test_literal_pattern_matches_only_itself() {
    assert!(matches_pattern("nginx", "nginx"));
    assert!(!matches_pattern("nginx-proxy", "nginx"));
    assert!(!matches_pattern("ngin", "nginx"));
    assert!(!matches_pattern("Nginx", "nginx"));
}

#[test]
fn test_prefix_and_suffix_wildcards() {
    assert!(matches_pattern("web-frontend", "web*"));
    assert!(matches_pattern("my-web", "*web"));
    assert!(matches_pattern("awebz", "*web*"));
    assert!(!matches_pattern("wxb", "web*"));
}

#[test]
fn test_wildcard_table_agrees_with_shortcut() {
    // The wildcard table must treat a literal pattern as plain equality.
    assert!(matches_wildcard("nginx", "nginx"));
    assert!(!matches_wildcard("nginx2", "nginx"));
    assert!(matches_wildcard("", ""));
    assert!(!matches_wildcard("x", ""));
}

#[test]
fn test_mixed_wildcards() {
    assert!(matches_pattern("img-123", "img-???"));
    assert!(!matches_pattern("img-12", "img-???"));
    assert!(matches_pattern("registry.io/app:latest", "*app*"));
    assert!(matches_pattern("abc", "a*c"));
    assert!(!matches_pattern("abd", "a*c"));
}
