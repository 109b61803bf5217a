use yagami::exclude::{ExcludeFilter, ExcludePattern};

#[test]
fn test_domain_only_pattern() {
    let pattern = ExcludePattern::new("example.com".to_string());

    assert!(pattern.matches("https://example.com"));
    assert!(pattern.matches("http://example.com"));
    assert!(pattern.matches("https://example.com/"));
    assert!(pattern.matches("https://example.com/foo"));
    assert!(pattern.matches("https://example.com/foo?bar=baz"));

    assert!(!pattern.matches("https://other.com"));
    assert!(!pattern.matches("https://notexample.com"));
}

#[test]
fn test_subdomain_pattern() {
    let pattern = ExcludePattern::new("example.com".to_string());

    assert!(pattern.matches("https://www.example.com"));
    assert!(pattern.matches("https://api.example.com/v1"));
}

#[test]
fn test_wildcard_pattern() {
    let pattern = ExcludePattern::new("https://example.com/foo/*".to_string());

    assert!(pattern.matches("https://example.com/foo/"));
    assert!(pattern.matches("https://example.com/foo/bar"));
    assert!(pattern.matches("https://example.com/foo/bar/baz"));
    assert!(pattern.matches("https://example.com/foo/?bar=baz"));

    assert!(!pattern.matches("https://example.com/"));
    assert!(!pattern.matches("https://example.com/bar"));
    assert!(!pattern.matches("http://example.com/foo/bar"));
}

#[test]
fn test_domain_wildcard_pattern() {
    let pattern = ExcludePattern::new("https://example.com/*".to_string());

    assert!(pattern.matches("https://example.com/"));
    assert!(pattern.matches("https://example.com/foo"));
    assert!(pattern.matches("https://example.com/foo?bar=baz"));
    assert!(pattern.matches("https://example.com/foo/bar/baz"));

    assert!(!pattern.matches("http://example.com/foo"));
    assert!(!pattern.matches("https://other.com/"));
}

#[test]
fn test_exact_match() {
    let pattern = ExcludePattern::new("https://example.com/exact".to_string());

    assert!(pattern.matches("https://example.com/exact"));

    assert!(!pattern.matches("https://example.com/exact/"));
    assert!(!pattern.matches("https://example.com/exact/path"));
    assert!(!pattern.matches("https://example.com/other"));
}

#[test]
fn test_exclude_filter() {
    let filter = ExcludeFilter::new(vec![
        "example.com".to_string(),
        "https://other.com/api/*".to_string(),
    ]);

    assert!(filter.should_exclude("https://example.com/foo"));
    assert!(filter.should_exclude("https://other.com/api/v1"));

    assert!(!filter.should_exclude("https://different.com"));
    assert!(!filter.should_exclude("https://other.com/docs"));
}

#[test]
fn test_empty_filter() {
    let filter = ExcludeFilter::new(vec![]);

    assert!(!filter.should_exclude("https://example.com"));
    assert!(filter.is_empty());
}

#[test]
fn unparsable_url_matches_no_pattern() {
    let pattern = ExcludePattern::new("not a url".to_string());
    assert!(!pattern.matches("not a url"));
    let domain = ExcludePattern::new("example.com".to_string());
    assert!(!domain.matches("example.com"));
}

#[test]
fn matches_parsed_uses_given_host() {
    let pattern = ExcludePattern::new("example.com".to_string());
    assert!(pattern.matches_parsed("whatever", Some(Some("example.com"))));
    assert!(pattern.matches_parsed("whatever", Some(Some("a.b.example.com"))));
    assert!(!pattern.matches_parsed("whatever", Some(Some("xexample.com"))));
    assert!(!pattern.matches_parsed("whatever", Some(None)));
    assert!(!pattern.matches_parsed("https://example.com", None));
    let exact = ExcludePattern::new("https://a.com/x".to_string());
    assert!(exact.matches_parsed("https://a.com/x", Some(Some("a.com"))));
    assert!(!exact.matches_parsed("https://a.com/x", None));
}

#[test]
fn host_without_domain_does_not_match_domain_pattern() {
    let pattern = ExcludePattern::new("example.com".to_string());
    assert!(!pattern.matches("mailto:someone@example.com"));
}

#[test]
fn filter_counts_patterns() {
    let filter = ExcludeFilter::new(vec!["a.com".to_string(), "b.com".to_string(), "https://c.com/*".to_string()]);
    assert_eq!(filter.count(), 3);
    assert!(!filter.is_empty());
    assert!(filter.should_exclude("https://c.com/"));
    assert!(filter.should_exclude("http://www.b.com/z"));
    assert!(!filter.should_exclude("https://d.com/"));
}
