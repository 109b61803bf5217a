use url::Url;
use yagami::parser::{collect_links, extract_links, normalize_url};

#[test]
fn test_extract_links() {
    let html = r#"
        <html>
            <body>
                <a href="https://example.com/page1">Link 1</a>
                <a href="/page2">Link 2</a>
                <img src="/image.png">
                <script src="https://example.com/script.js"></script>
            </body>
        </html>
    "#;

    let links = extract_links(html, "https://example.com/");
    assert!(links.len() >= 3);
    assert!(links.contains(&"https://example.com/page1".to_string()));
    assert!(links.contains(&"https://example.com/page2".to_string()));
}

#[test]
fn test_filter_invalid_schemes() {
    let html = r#"
        <html>
            <body>
                <a href="javascript:void(0)">JS</a>
                <a href="mailto:test@example.com">Email</a>
                <a href="https://example.com/valid">Valid</a>
            </body>
        </html>
    "#;

    let links = extract_links(html, "https://example.com/");
    assert_eq!(links.len(), 1);
    assert_eq!(links[0], "https://example.com/valid");
}

#[test]
fn test_normalize_relative_urls() {
    let base = Url::parse("https://example.com/path/page.html").unwrap();

    assert_eq!(
        normalize_url("/absolute", &base),
        Some("https://example.com/absolute".to_string())
    );

    assert_eq!(
        normalize_url("relative", &base),
        Some("https://example.com/path/relative".to_string())
    );

    assert_eq!(
        normalize_url("https://other.com/page", &base),
        Some("https://other.com/page".to_string())
    );
}

#[test]
fn test_remove_fragments() {
    let base = Url::parse("https://example.com/").unwrap();

    assert_eq!(
        normalize_url("page#section", &base),
        Some("https://example.com/page".to_string())
    );
}

#[test]
fn skipped_targets_give_no_link() {
    let base = Url::parse("https://example.com/").unwrap();
    assert_eq!(normalize_url("  tel:123", &base), None);
    assert_eq!(normalize_url("data:text/plain,hi", &base), None);
    assert_eq!(normalize_url("#top", &base), None);
    assert_eq!(normalize_url("   ", &base), None);
    assert_eq!(normalize_url("ftp://example.com/file", &base), None);
    assert_eq!(normalize_url("  /trimmed  ", &base), Some("https://example.com/trimmed".to_string()));
    assert_eq!(normalize_url("http://plain.org/a#b", &base), Some("http://plain.org/a".to_string()));
}

#[test]
fn order_is_hrefs_then_sources() {
    let html = r#"<img src="/b.png"><a href="/a">a</a><link href="/style.css"><iframe src="/f"></iframe>"#;
    let links = extract_links(html, "https://example.com/");
    assert_eq!(
        links,
        vec![
            "https://example.com/a".to_string(),
            "https://example.com/style.css".to_string(),
            "https://example.com/b.png".to_string(),
            "https://example.com/f".to_string(),
        ]
    );
}

#[test]
fn bad_base_gives_no_links() {
    let links = extract_links("<a href=\"https://example.com/\">x</a>", "not a url");
    assert!(links.is_empty());
}

#[test]
fn collect_links_appends_in_order() {
    let base = Url::parse("https://example.com/dir/").unwrap();
    let values = vec![Some("x".to_string()), None, Some("mailto:a@b.c".to_string()), Some("/y".to_string())];
    let mut links = vec!["kept".to_string()];
    collect_links(&values, &base, &mut links);
    assert_eq!(
        links,
        vec![
            "kept".to_string(),
            "https://example.com/dir/x".to_string(),
            "https://example.com/y".to_string(),
        ]
    );
}
