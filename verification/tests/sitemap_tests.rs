use yagami::errors::YagamiError;
use yagami::sitemap::{
    classify_event, detect_sitemap_type, parse_sitemap_index, parse_urlset, read_sitemap, Detection, EntryScanner,
    IndexPages, SitemapContent, SitemapType, SitemapVisits,
};
use yagami::xml::XmlEvent;

#[test]
fn test_detect_urlset() {
    let xml = r#"<?xml version="1.0" encoding="UTF-8"?>
    <urlset xmlns="http://www.sitemaps.org/schemas/sitemap/0.9">
        <url>
            <loc>https://example.com/page1</loc>
        </url>
    </urlset>"#;

    let sitemap_type = detect_sitemap_type(xml).unwrap();
    assert_eq!(sitemap_type, SitemapType::UrlSet);
}

#[test]
fn test_detect_sitemapindex() {
    let xml = r#"<?xml version="1.0" encoding="UTF-8"?>
    <sitemapindex xmlns="http://www.sitemaps.org/schemas/sitemap/0.9">
        <sitemap>
            <loc>https://example.com/sitemap1.xml</loc>
        </sitemap>
    </sitemapindex>"#;

    let sitemap_type = detect_sitemap_type(xml).unwrap();
    assert_eq!(sitemap_type, SitemapType::Index);
}

#[test]
fn test_parse_urlset() {
    let xml = r#"<?xml version="1.0" encoding="UTF-8"?>
    <urlset xmlns="http://www.sitemaps.org/schemas/sitemap/0.9">
        <url>
            <loc>https://example.com/page1</loc>
        </url>
        <url>
            <loc>https://example.com/page2</loc>
        </url>
    </urlset>"#;

    let urls = parse_urlset(xml).unwrap();
    assert_eq!(urls.len(), 2);
    assert_eq!(urls[0], "https://example.com/page1");
    assert_eq!(urls[1], "https://example.com/page2");
}

#[test]
fn test_parse_empty_urlset() {
    let xml = r#"<?xml version="1.0" encoding="UTF-8"?>
    <urlset xmlns="http://www.sitemaps.org/schemas/sitemap/0.9">
    </urlset>"#;

    let result = parse_urlset(xml);
    assert!(result.is_err());
}

#[test]
fn test_parse_sitemap_index() {
    let xml = r#"<?xml version="1.0" encoding="UTF-8"?>
    <sitemapindex xmlns="http://www.sitemaps.org/schemas/sitemap/0.9">
        <sitemap>
            <loc>https://example.com/sitemap1.xml</loc>
            <lastmod>2026-03-01</lastmod>
        </sitemap>
        <sitemap>
            <loc>https://example.com/sitemap2.xml</loc>
            <lastmod>2026-03-02</lastmod>
        </sitemap>
    </sitemapindex>"#;

    let sitemap_urls = parse_sitemap_index(xml).unwrap();
    assert_eq!(sitemap_urls.len(), 2);
    assert_eq!(sitemap_urls[0], "https://example.com/sitemap1.xml");
    assert_eq!(sitemap_urls[1], "https://example.com/sitemap2.xml");
}

#[test]
fn test_parse_empty_sitemap_index() {
    let xml = r#"<?xml version="1.0" encoding="UTF-8"?>
    <sitemapindex xmlns="http://www.sitemaps.org/schemas/sitemap/0.9">
    </sitemapindex>"#;

    let result = parse_sitemap_index(xml);
    assert!(result.is_err());
}

#[test]
fn test_parse_urlset_with_namespace() {
    let xml = r#"<?xml version="1.0" encoding="UTF-8"?>
    <urlset xmlns:xsi="http://www.w3.org/2001/XMLSchema-instance"
            xsi:schemaLocation="http://www.sitemaps.org/schemas/sitemap/0.9 http://www.sitemaps.org/schemas/sitemap/0.9/sitemap.xsd"
            xmlns="http://www.sitemaps.org/schemas/sitemap/0.9">
        <url>
            <loc>https://developer.woocommerce.com/about/</loc>
            <lastmod>2025-02-06T11:27:59Z</lastmod>
        </url>
        <url>
            <loc>https://developer.woocommerce.com/blog/</loc>
            <lastmod>2024-02-17T13:12:30Z</lastmod>
        </url>
    </urlset>"#;

    let urls = parse_urlset(xml).unwrap();
    assert_eq!(urls.len(), 2);
    assert_eq!(urls[0], "https://developer.woocommerce.com/about/");
    assert_eq!(urls[1], "https://developer.woocommerce.com/blog/");
}

fn invalid_message(r: Result<Vec<String>, YagamiError>) -> String {
    match r {
        Err(YagamiError::InvalidSitemap(m)) => m,
        other => panic!("unexpected {:?}", other),
    }
}

#[test]
fn empty_lists_give_their_messages() {
    assert_eq!(invalid_message(parse_urlset("<urlset></urlset>")), "No URLs found in urlset");
    assert_eq!(
        invalid_message(parse_sitemap_index("<sitemapindex></sitemapindex>")),
        "No sitemap references found in sitemap index"
    );
}

#[test]
fn undetectable_document() {
    match detect_sitemap_type("<html><body>hi</body></html>") {
        Err(YagamiError::InvalidSitemap(m)) => assert_eq!(m, "Unable to determine sitemap type"),
        other => panic!("unexpected {:?}", other),
    }
}

#[test]
fn malformed_xml_is_an_xml_error() {
    assert!(matches!(parse_urlset("<urlset><url><loc>a</url></urlset>"), Err(YagamiError::XmlError(_))));
    assert!(matches!(detect_sitemap_type("<a></b>"), Err(YagamiError::XmlError(_))));
}

#[test]
fn root_found_before_later_error() {
    assert_eq!(detect_sitemap_type("<urlset><url></x>").unwrap(), SitemapType::UrlSet);
}

#[test]
fn loc_outside_entry_is_ignored_and_escapes_resolve() {
    let xml = "<urlset><loc>https://skip.me/</loc><url><loc>https://a.com/?x=1&amp;y=2</loc></url></urlset>";
    let urls = parse_urlset(xml).unwrap();
    assert_eq!(urls, vec!["https://a.com/?x=1&y=2".to_string()]);
}

#[test]
fn read_sitemap_tells_kinds_apart() {
    match read_sitemap("<sitemapindex><sitemap><loc>https://a.com/s.xml</loc></sitemap></sitemapindex>").unwrap() {
        SitemapContent::Index(v) => assert_eq!(v, vec!["https://a.com/s.xml".to_string()]),
        other => panic!("unexpected {:?}", other),
    }
    match read_sitemap("<urlset><url><loc>https://a.com/p</loc></url></urlset>").unwrap() {
        SitemapContent::Pages(v) => assert_eq!(v, vec!["https://a.com/p".to_string()]),
        other => panic!("unexpected {:?}", other),
    }
    assert!(read_sitemap("<rss></rss>").is_err());
}

#[test]
fn scanner_feeds_events() {
    let mut scanner = EntryScanner::new(b"url".to_vec());
    assert!(scanner.feed(Ok(XmlEvent::Text(Ok("ignored".to_string())))).unwrap());
    assert!(scanner.feed(Ok(XmlEvent::Start(b"url".to_vec()))).unwrap());
    assert!(scanner.feed(Ok(XmlEvent::Empty(b"loc".to_vec()))).unwrap());
    assert!(scanner.feed(Ok(XmlEvent::Text(Ok("https://x.org/".to_string())))).unwrap());
    assert!(scanner.feed(Ok(XmlEvent::Text(Ok("second".to_string())))).unwrap());
    assert!(scanner.feed(Ok(XmlEvent::End(b"url".to_vec()))).unwrap());
    assert!(scanner.feed(Ok(XmlEvent::Other)).unwrap());
    assert!(!scanner.feed(Ok(XmlEvent::Eof)).unwrap());
    assert_eq!(scanner.into_found(), vec!["https://x.org/".to_string()]);
}

#[test]
fn classify_events() {
    assert!(matches!(classify_event(Ok(XmlEvent::Start(b"urlset".to_vec()))), Ok(Detection::Found(SitemapType::UrlSet))));
    assert!(matches!(classify_event(Ok(XmlEvent::Empty(b"sitemapindex".to_vec()))), Ok(Detection::Found(SitemapType::Index))));
    assert!(matches!(classify_event(Ok(XmlEvent::Start(b"url".to_vec()))), Ok(Detection::Pending)));
    assert!(matches!(classify_event(Ok(XmlEvent::End(b"urlset".to_vec()))), Ok(Detection::Pending)));
    assert!(matches!(classify_event(Ok(XmlEvent::Eof)), Ok(Detection::NotFound)));
}

#[test]
fn visits_refuse_repeats_and_depth() {
    let mut visits = SitemapVisits::new();
    assert!(visits.begin("https://a.com/s.xml", 0).unwrap());
    assert!(!visits.begin("https://a.com/s.xml", 3).unwrap());
    assert!(visits.begin("https://a.com/t.xml", 10).unwrap());
    match visits.begin("https://a.com/u.xml", 11) {
        Err(YagamiError::InvalidSitemap(m)) => assert_eq!(m, "Maximum recursion depth exceeded"),
        other => panic!("unexpected {:?}", other),
    }
    assert!(visits.begin("https://a.com/u.xml", 1).unwrap());
}

#[test]
fn index_pages_gather_in_order() {
    let mut pages = IndexPages::new();
    pages.absorb(Ok(vec!["a".to_string(), "b".to_string()]));
    pages.absorb(Err(YagamiError::InvalidSitemap("x".to_string())));
    pages.absorb(Ok(vec!["c".to_string()]));
    assert_eq!(pages.finish().unwrap(), vec!["a".to_string(), "b".to_string(), "c".to_string()]);
    match IndexPages::new().finish() {
        Err(YagamiError::InvalidSitemap(m)) => assert_eq!(m, "No URLs found in sitemap index"),
        other => panic!("unexpected {:?}", other),
    }
}
