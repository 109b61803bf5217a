use yagami::checker::{check_result, format_error, CheckResult, RequestFailure};
use yagami::crawler::should_check_link;
use yagami::exclude::ExcludeFilter;
use yagami::models::{CrawlResult, CrawlStats};
use yagami::tui::app::App;

#[test]
fn new_stats_are_zero() {
    let stats = CrawlStats::new();
    assert_eq!(stats.total_pages, 0);
    assert_eq!(stats.pages_crawled, 0);
    assert_eq!(stats.total_links, 0);
    assert_eq!(stats.links_checked, 0);
    assert!(stats.status_counts.is_empty());
    assert_eq!(stats.get_2xx_count(), 0);
    assert_eq!(stats.get_5xx_count(), 0);
}

#[test]
fn status_classes_are_counted() {
    let mut stats = CrawlStats::new();
    for code in [200u16, 204, 299, 301, 302, 404, 404, 410, 500, 503, 0, 199, 600, 100] {
        stats.increment_status(code);
    }
    assert_eq!(stats.get_2xx_count(), 3);
    assert_eq!(stats.get_3xx_count(), 2);
    assert_eq!(stats.get_4xx_count(), 3);
    assert_eq!(stats.get_5xx_count(), 2);
    assert_eq!(stats.status_counts.get(&404), Some(&2));
    assert_eq!(stats.status_counts.get(&0), Some(&1));
}

#[test]
fn one_more_status_raises_only_its_class() {
    let mut stats = CrawlStats::new();
    stats.increment_status(404);
    let before = (stats.get_2xx_count(), stats.get_3xx_count(), stats.get_4xx_count(), stats.get_5xx_count());
    stats.increment_status(302);
    let after = (stats.get_2xx_count(), stats.get_3xx_count(), stats.get_4xx_count(), stats.get_5xx_count());
    assert_eq!(after, (before.0, before.1 + 1, before.2, before.3));
}

#[test]
fn shared_counters_move_as_the_crawl_runs() {
    let mut stats = CrawlStats::new();
    stats.set_total_pages(7);
    stats.add_links(3);
    stats.add_links(2);
    stats.increment_pages_crawled();
    let result = CrawlResult {
        page_url: "https://a.com/".to_string(),
        link_url: "https://a.com/x".to_string(),
        status_code: 200,
        error: None,
    };
    stats.update_with_result(&result);
    stats.update_with_result(&result);
    assert_eq!(stats.total_pages, 7);
    assert_eq!(stats.total_links, 5);
    assert_eq!(stats.pages_crawled, 1);
    assert_eq!(stats.links_checked, 2);
    assert_eq!(stats.get_2xx_count(), 2);
}

#[test]
fn app_starts_empty_and_takes_stats() {
    let mut app = App::new(10, 50);
    assert_eq!(app.page_workers, 10);
    assert_eq!(app.link_checkers, 50);
    assert_eq!(app.stats.total_pages, 0);
    let mut stats = CrawlStats::new();
    stats.set_total_pages(4);
    app.update_stats(stats);
    assert_eq!(app.stats.total_pages, 4);
    assert_eq!(app.page_workers, 10);
}

fn failure(t: bool, c: bool, s: bool, status: Option<&str>) -> RequestFailure {
    RequestFailure { is_timeout: t, is_connect: c, is_status: s, status: status.map(|x| x.to_string()) }
}

#[test]
fn error_messages() {
    assert_eq!(format_error(&failure(true, true, true, None)), "Timeout");
    assert_eq!(format_error(&failure(false, true, true, None)), "Connection failed");
    assert_eq!(format_error(&failure(false, false, true, Some("404 Not Found"))), "HTTP 404 Not Found");
    assert_eq!(format_error(&failure(false, false, true, None)), "HTTP error");
    assert_eq!(format_error(&failure(false, false, false, None)), "Request failed");
}

#[test]
fn check_results() {
    let ok: CheckResult = check_result(Ok(301));
    assert_eq!(ok.status_code, 301);
    assert!(ok.error.is_none());
    let failed = check_result(Err(failure(false, true, false, None)));
    assert_eq!(failed.status_code, 0);
    assert_eq!(failed.error, Some("Connection failed".to_string()));
}

#[test]
fn links_checked_once_and_not_excluded() {
    let filter = ExcludeFilter::new(vec!["skip.com".to_string()]);
    assert!(should_check_link(true, &filter, "https://keep.com/"));
    assert!(!should_check_link(false, &filter, "https://keep.com/"));
    assert!(!should_check_link(true, &filter, "https://www.skip.com/a"));
}

#[test]
fn crawl_completes_when_all_pages_are_crawled() {
    let mut stats = CrawlStats::new();
    assert!(!stats.is_complete());
    stats.set_total_pages(2);
    assert!(!stats.is_complete());
    stats.increment_pages_crawled();
    assert!(!stats.is_complete());
    stats.increment_pages_crawled();
    assert!(stats.is_complete());
}
