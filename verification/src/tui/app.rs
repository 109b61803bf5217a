use vstd::prelude::*;
use crate::models::CrawlStats;

verus! {

/// What the progress display shows: the latest counters and the configured
/// concurrency.
pub struct App {
    pub stats: CrawlStats,
    pub page_workers: usize,
    pub link_checkers: usize,
}

impl App {
    pub fn new(page_workers: usize, link_checkers: usize) -> (r: Self)
        ensures
            r.page_workers == page_workers,
            r.link_checkers == link_checkers,
            r.stats.total_pages == 0,
            r.stats.pages_crawled == 0,
            r.stats.total_links == 0,
            r.stats.links_checked == 0,
            r.stats.status_counts@ == Map::<u16, usize>::empty(),
    {
        Self { stats: CrawlStats::new(), page_workers, link_checkers }
    }

    /// Shows `stats` from now on.
    pub fn update_stats(&mut self, stats: CrawlStats)
        ensures
            final(self).stats == stats,
            final(self).page_workers == old(self).page_workers,
            final(self).link_checkers == old(self).link_checkers,
    {
        self.stats = stats;
    }
}

} // verus!
