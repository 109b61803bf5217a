use vstd::prelude::*;
use std::collections::HashMap;

verus! {

broadcast use vstd::std_specs::hash::group_hash_axioms;

/// The outcome of checking one link found on one page.
#[derive(Debug, Clone)]
pub struct CrawlResult {
    pub page_url: String,
    pub link_url: String,
    pub status_code: u16,
    pub error: Option<String>,
}

/// Progress counters of a crawl, with the number of links seen per HTTP
/// status code.
#[derive(Debug, Clone)]
pub struct CrawlStats {
    pub total_pages: usize,
    pub pages_crawled: usize,
    pub total_links: usize,
    pub links_checked: usize,
    pub status_counts: HashMap<u16, usize>,
}

/// How many links got status `code` (zero where none did).
pub open spec fn code_count(m: Map<u16, usize>, code: int) -> int {
    if 0 <= code <= u16::MAX && m.contains_key(code as u16) {
        m[code as u16] as int
    } else {
        0
    }
}

/// How many links got a status code in `lo..hi`.
pub open spec fn codes_total(m: Map<u16, usize>, lo: int, hi: int) -> int
    decreases hi - lo,
{
    if hi <= lo {
        0
    } else {
        codes_total(m, lo, hi - 1) + code_count(m, hi - 1)
    }
}

/// The sum of the counts of the pairs in `s` whose code lies in `lo..hi`.
pub open spec fn pairs_total(s: Seq<(u16, usize)>, lo: int, hi: int) -> int
    decreases s.len(),
{
    if s.len() == 0 {
        0
    } else {
        pairs_total(s.drop_last(), lo, hi) + if lo <= s.last().0 < hi {
            s.last().1 as int
        } else {
            0
        }
    }
}

/// No two pairs of `s` share a code.
pub open spec fn distinct_codes(s: Seq<(u16, usize)>) -> bool {
    forall|i: int, j: int| 0 <= i < s.len() && 0 <= j < s.len() && i != j ==> s[i].0 != s[j].0
}

/// `s` lists the entries of `m`, each once.
pub open spec fn lists_entries(s: Seq<(u16, usize)>, m: Map<u16, usize>) -> bool {
    &&& distinct_codes(s)
    &&& forall|i: int| 0 <= i < s.len() ==> #[trigger] m.contains_key(s[i].0) && m[s[i].0] == s[i].1
    &&& forall|k: u16| #[trigger] m.contains_key(k) ==> exists|i: int| 0 <= i < s.len() && #[trigger] s[i].0 == k
}

proof fn lemma_pairs_total_empty_range(s: Seq<(u16, usize)>, lo: int, hi: int)
    requires
        hi <= lo,
    ensures
        pairs_total(s, lo, hi) == 0,
    decreases s.len(),
{
    if s.len() > 0 {
        lemma_pairs_total_empty_range(s.drop_last(), lo, hi);
    }
}

proof fn lemma_pairs_total_split(s: Seq<(u16, usize)>, lo: int, hi: int)
    requires
        lo < hi,
    ensures
        pairs_total(s, lo, hi) == pairs_total(s, lo, hi - 1) + pairs_total(s, hi - 1, hi),
    decreases s.len(),
{
    if s.len() > 0 {
        lemma_pairs_total_split(s.drop_last(), lo, hi);
    }
}

proof fn lemma_pairs_total_single(s: Seq<(u16, usize)>, c: int)
    requires
        distinct_codes(s),
    ensures
        (forall|i: int| 0 <= i < s.len() ==> s[i].0 != c) ==> pairs_total(s, c, c + 1) == 0,
        forall|i: int| 0 <= i < s.len() && s[i].0 == c ==> pairs_total(s, c, c + 1) == s[i].1,
    decreases s.len(),
{
    if s.len() > 0 {
        let t = s.drop_last();
        assert(distinct_codes(t)) by {
            assert forall|i: int, j: int| 0 <= i < t.len() && 0 <= j < t.len() && i != j implies t[i].0 != t[j].0 by {
                assert(t[i] == s[i] && t[j] == s[j]);
            }
        }
        lemma_pairs_total_single(t, c);
        assert forall|i: int| 0 <= i < s.len() && s[i].0 == c implies pairs_total(s, c, c + 1) == s[i].1 by {
            if i < s.len() - 1 {
                assert(t[i] == s[i]);
                assert(s.last().0 != c);
            } else {
                assert forall|j: int| 0 <= j < t.len() implies t[j].0 != c by {
                    assert(t[j] == s[j]);
                }
            }
        }
        if forall|i: int| 0 <= i < s.len() ==> s[i].0 != c {
            assert forall|j: int| 0 <= j < t.len() implies t[j].0 != c by {
                assert(t[j] == s[j]);
            }
            assert(s[s.len() - 1].0 != c);
        }
    }
}

/// Summing the entries of a listing of `m` over a code range gives the
/// range's total in `m`.
proof fn lemma_listing_total(s: Seq<(u16, usize)>, m: Map<u16, usize>, lo: int, hi: int)
    requires
        lists_entries(s, m),
        0 <= lo,
        hi <= u16::MAX + 1,
    ensures
        pairs_total(s, lo, hi) == codes_total(m, lo, hi),
    decreases hi - lo,
{
    if hi <= lo {
        lemma_pairs_total_empty_range(s, lo, hi);
    } else {
        lemma_listing_total(s, m, lo, hi - 1);
        lemma_pairs_total_split(s, lo, hi);
        lemma_pairs_total_single(s, hi - 1);
        let c = (hi - 1) as u16;
        if m.contains_key(c) {
            let i = choose|i: int| 0 <= i < s.len() && #[trigger] s[i].0 == c;
            assert(m.contains_key(s[i].0));
        } else {
            assert forall|i: int| 0 <= i < s.len() implies s[i].0 != hi - 1 by {
                assert(m.contains_key(s[i].0));
            }
        }
    }
}

proof fn lemma_prefix_total_bounded(s: Seq<(u16, usize)>, i: int, lo: int, hi: int)
    requires
        0 <= i <= s.len(),
    ensures
        pairs_total(s.take(i), lo, hi) <= pairs_total(s, lo, hi),
    decreases s.len() - i,
{
    if i < s.len() {
        lemma_prefix_total_bounded(s, i + 1, lo, hi);
        assert(s.take(i + 1).drop_last() =~= s.take(i));
    } else {
        assert(s.take(i) =~= s);
    }
}

/// Nothing is counted before the first link.
pub proof fn law_no_counts_at_start(lo: int, hi: int)
    ensures
        codes_total(Map::empty(), lo, hi) == 0,
    decreases hi - lo,
{
    if hi > lo {
        law_no_counts_at_start(lo, hi - 1);
    }
}

/// Counting one more link with status `code` raises the total of a code
/// range by one where `code` lies in it, and leaves it unchanged elsewhere.
pub proof fn law_one_more_status(m: Map<u16, usize>, code: u16, lo: int, hi: int)
    requires
        code_count(m, code as int) < usize::MAX,
    ensures
        codes_total(m.insert(code, (code_count(m, code as int) + 1) as usize), lo, hi)
            == codes_total(m, lo, hi) + if lo <= code < hi { 1int } else { 0 },
    decreases hi - lo,
{
    if hi > lo {
        law_one_more_status(m, code, lo, hi - 1);
    }
}

impl Default for CrawlStats {
    fn default() -> (r: Self)
        ensures
            r.total_pages == 0,
            r.pages_crawled == 0,
            r.total_links == 0,
            r.links_checked == 0,
            r.status_counts@ == Map::<u16, usize>::empty(),
    {
        CrawlStats {
            total_pages: 0,
            pages_crawled: 0,
            total_links: 0,
            links_checked: 0,
            status_counts: HashMap::new(),
        }
    }
}

impl CrawlStats {
    pub fn new() -> (r: Self)
        ensures
            r.total_pages == 0,
            r.pages_crawled == 0,
            r.total_links == 0,
            r.links_checked == 0,
            r.status_counts@ == Map::<u16, usize>::empty(),
    {
        Self::default()
    }

    /// Counts one more link with status `status_code`.
    pub fn increment_status(&mut self, status_code: u16)
        requires
            code_count(old(self).status_counts@, status_code as int) < usize::MAX,
        ensures
            final(self).status_counts@ == old(self).status_counts@.insert(
                status_code,
                (code_count(old(self).status_counts@, status_code as int) + 1) as usize,
            ),
            final(self).total_pages == old(self).total_pages,
            final(self).pages_crawled == old(self).pages_crawled,
            final(self).total_links == old(self).total_links,
            final(self).links_checked == old(self).links_checked,
    {
        let current: usize = match self.status_counts.get(&status_code) {
            Some(c) => *c,
            None => 0,
        };
        self.status_counts.insert(status_code, current + 1);
    }

    /// The number of links whose status code lies in `lo..hi`.
    fn count_in(&self, lo: u16, hi: u16) -> (r: usize)
        requires
            codes_total(self.status_counts@, lo as int, hi as int) <= usize::MAX,
        ensures
            r == codes_total(self.status_counts@, lo as int, hi as int),
    {
        let ghost m = self.status_counts@;
        let entries = self.status_counts.iter();
        let ghost v = vstd::std_specs::iter::IteratorSpec::remaining(&entries);
        let ghost pairs = v.unref();
        let mut sum: usize = 0;
        proof {
            assert(lists_entries(pairs, m)) by {
                assert forall|i: int, j: int| 0 <= i < pairs.len() && 0 <= j < pairs.len() && i != j implies pairs[i].0 != pairs[j].0 by {
                    if pairs[i].0 == pairs[j].0 {
                        assert(m[*v[i].0] == *v[i].1);
                        assert(m[*v[j].0] == *v[j].1);
                        assert(v[i] == v[j]);
                    }
                }
                assert forall|i: int| 0 <= i < pairs.len() implies #[trigger] m.contains_key(pairs[i].0) && m[pairs[i].0] == pairs[i].1 by {
                    assert(m.contains_key(*v[i].0));
                }
                assert forall|k: u16| #[trigger] m.contains_key(k) implies exists|i: int| 0 <= i < pairs.len() && #[trigger] pairs[i].0 == k by {
                    assert(v.contains((&k, &m[k])));
                    let i = choose|i: int| 0 <= i < v.len() && v[i] == (&k, &m[k]);
                    assert(pairs[i].0 == k);
                }
            }
            lemma_listing_total(pairs, m, lo as int, hi as int);
        }
        for entry in it: entries
            invariant
                m == self.status_counts@,
                it.seq().unref() == pairs,
                sum == pairs_total(pairs.take(it.index()), lo as int, hi as int),
                pairs_total(pairs, lo as int, hi as int) <= usize::MAX,
        {
            let (code, count) = entry;
            proof {
                assert(pairs.take(it.index() + 1).drop_last() =~= pairs.take(it.index()));
                lemma_prefix_total_bounded(pairs, it.index() + 1, lo as int, hi as int);
            }
            if *code >= lo && *code < hi {
                sum = sum + *count;
            }
        }
        proof {
            assert(pairs.take(pairs.len() as int) =~= pairs);
        }
        sum
    }

    /// The number of links with a 2xx status.
    pub fn get_2xx_count(&self) -> (r: usize)
        requires
            codes_total(self.status_counts@, 200, 300) <= usize::MAX,
        ensures
            r == codes_total(self.status_counts@, 200, 300),
    {
        self.count_in(200, 300)
    }

    /// The number of links with a 3xx status.
    pub fn get_3xx_count(&self) -> (r: usize)
        requires
            codes_total(self.status_counts@, 300, 400) <= usize::MAX,
        ensures
            r == codes_total(self.status_counts@, 300, 400),
    {
        self.count_in(300, 400)
    }

    /// The number of links with a 4xx status.
    pub fn get_4xx_count(&self) -> (r: usize)
        requires
            codes_total(self.status_counts@, 400, 500) <= usize::MAX,
        ensures
            r == codes_total(self.status_counts@, 400, 500),
    {
        self.count_in(400, 500)
    }

    /// The number of links with a 5xx status.
    pub fn get_5xx_count(&self) -> (r: usize)
        requires
            codes_total(self.status_counts@, 500, 600) <= usize::MAX,
        ensures
            r == codes_total(self.status_counts@, 500, 600),
    {
        self.count_in(500, 600)
    }
}


/// The counters a crawl keeps while it runs: the parts of the shared crawl
/// state that each step changes.
impl CrawlStats {
    /// One more link was checked, with the status code of `result`.
    pub fn update_with_result(&mut self, result: &CrawlResult)
        requires
            old(self).links_checked < usize::MAX,
            code_count(old(self).status_counts@, result.status_code as int) < usize::MAX,
        ensures
            final(self).links_checked == old(self).links_checked + 1,
            final(self).status_counts@ == old(self).status_counts@.insert(
                result.status_code,
                (code_count(old(self).status_counts@, result.status_code as int) + 1) as usize,
            ),
            final(self).total_pages == old(self).total_pages,
            final(self).pages_crawled == old(self).pages_crawled,
            final(self).total_links == old(self).total_links,
    {
        self.links_checked = self.links_checked + 1;
        self.increment_status(result.status_code);
    }

    /// Whether the crawl is done: some pages were to be crawled, and as
    /// many have been (each page waits for its links to be checked).
    pub fn is_complete(&self) -> (r: bool)
        ensures
            r == (self.total_pages > 0 && self.pages_crawled >= self.total_pages),
    {
        self.total_pages > 0 && self.pages_crawled >= self.total_pages
    }

    /// One more page was crawled.
    pub fn increment_pages_crawled(&mut self)
        requires
            old(self).pages_crawled < usize::MAX,
        ensures
            final(self).pages_crawled == old(self).pages_crawled + 1,
            final(self).total_pages == old(self).total_pages,
            final(self).total_links == old(self).total_links,
            final(self).links_checked == old(self).links_checked,
            final(self).status_counts@ == old(self).status_counts@,
    {
        self.pages_crawled = self.pages_crawled + 1;
    }

    /// The crawl covers `total` pages.
    pub fn set_total_pages(&mut self, total: usize)
        ensures
            final(self).total_pages == total,
            final(self).pages_crawled == old(self).pages_crawled,
            final(self).total_links == old(self).total_links,
            final(self).links_checked == old(self).links_checked,
            final(self).status_counts@ == old(self).status_counts@,
    {
        self.total_pages = total;
    }

    /// `count` more links are to be checked.
    pub fn add_links(&mut self, count: usize)
        requires
            old(self).total_links + count <= usize::MAX,
        ensures
            final(self).total_links == old(self).total_links + count,
            final(self).total_pages == old(self).total_pages,
            final(self).pages_crawled == old(self).pages_crawled,
            final(self).links_checked == old(self).links_checked,
            final(self).status_counts@ == old(self).status_counts@,
    {
        self.total_links = self.total_links + count;
    }
}

} // verus!
