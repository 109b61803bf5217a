use vstd::prelude::*;
use crate::errors::YagamiError;
use crate::text::{same_bytes, texts};
use crate::xml::{next_xml_event, pending_steps, step_of, well_ended, xml_reader, xml_steps, XmlEvent, XmlStep};

verus! {

/// How deep sitemap indexes may nest.
pub const MAX_RECURSION_DEPTH: usize = 10;

/// The two kinds of sitemap file.
#[derive(Debug, Clone, Copy, PartialEq, Eq, Structural)]
pub enum SitemapType {
    Index,
    UrlSet,
}

/// `sitemapindex`
pub open spec fn sitemapindex_tag() -> Seq<u8> {
    seq![115u8, 105u8, 116u8, 101u8, 109u8, 97u8, 112u8, 105u8, 110u8, 100u8, 101u8, 120u8]
}

/// `urlset`
pub open spec fn urlset_tag() -> Seq<u8> {
    seq![117u8, 114u8, 108u8, 115u8, 101u8, 116u8]
}

/// `sitemap`
pub open spec fn sitemap_tag() -> Seq<u8> {
    seq![115u8, 105u8, 116u8, 101u8, 109u8, 97u8, 112u8]
}

/// `url`
pub open spec fn url_tag() -> Seq<u8> {
    seq![117u8, 114u8, 108u8]
}

/// `loc`
pub open spec fn loc_tag() -> Seq<u8> {
    seq![108u8, 111u8, 99u8]
}

/// Where the search for the root element stands after some reads.
pub enum Detection {
    /// Nothing decided yet: read on.
    Pending,
    /// The document is of this kind.
    Found(SitemapType),
    /// The document ended without a sitemap root element.
    NotFound,
}

/// What one read tells about the kind of document.
pub open spec fn detect_step(step: XmlStep) -> Option<Detection> {
    match step {
        XmlStep::Start(n) | XmlStep::Empty(n) => if n == sitemapindex_tag() {
            Some(Detection::Found(SitemapType::Index))
        } else if n == urlset_tag() {
            Some(Detection::Found(SitemapType::UrlSet))
        } else {
            Some(Detection::Pending)
        },
        XmlStep::Eof => Some(Detection::NotFound),
        XmlStep::Failed => None,
        _ => Some(Detection::Pending),
    }
}

/// The kind of document that `steps` show: `Some(Found(..))` or
/// `Some(NotFound)`, or `None` where an error comes first.
pub open spec fn detect_in(steps: Seq<XmlStep>) -> Option<Detection>
    decreases steps.len(),
{
    if steps.len() == 0 {
        Some(Detection::NotFound)
    } else {
        match detect_step(steps[0]) {
            Some(Detection::Pending) => detect_in(steps.drop_first()),
            other => other,
        }
    }
}

/// Reads one event in the search for the root element: `sitemapindex` or
/// `urlset` (opening or empty) decides the kind, the end of the document
/// ends the search, an error is passed on.
pub fn classify_event(event: Result<XmlEvent, quick_xml::Error>) -> (r: Result<Detection, YagamiError>)
    ensures
        match detect_step(step_of(event)) {
            Some(d) => r == Ok::<Detection, YagamiError>(d),
            None => r matches Err(YagamiError::XmlError(_)),
        },
{
    match event {
        Err(e) => Err(YagamiError::XmlError(e)),
        Ok(XmlEvent::Start(n)) | Ok(XmlEvent::Empty(n)) => {
            let index = vec![115u8, 105u8, 116u8, 101u8, 109u8, 97u8, 112u8, 105u8, 110u8, 100u8, 101u8, 120u8];
            let urlset = vec![117u8, 114u8, 108u8, 115u8, 101u8, 116u8];
            assert(index@ == sitemapindex_tag());
            assert(urlset@ == urlset_tag());
            if same_bytes(&n, &index) {
                Ok(Detection::Found(SitemapType::Index))
            } else if same_bytes(&n, &urlset) {
                Ok(Detection::Found(SitemapType::UrlSet))
            } else {
                Ok(Detection::Pending)
            }
        },
        Ok(XmlEvent::Eof) => Ok(Detection::NotFound),
        Ok(_) => Ok(Detection::Pending),
    }
}

/// Tells a sitemap index from a URL set by its first `sitemapindex` or
/// `urlset` element.
pub fn detect_sitemap_type(xml_content: &str) -> (r: Result<SitemapType, YagamiError>)
    ensures
        match detect_in(xml_steps(xml_content@)) {
            Some(Detection::Found(t)) => r == Ok::<SitemapType, YagamiError>(t),
            Some(_) => r matches Err(YagamiError::InvalidSitemap(m)) && m@
                == "Unable to determine sitemap type"@,
            None => r matches Err(YagamiError::XmlError(_)),
        },
{
    let mut reader = xml_reader(xml_content);
    let ghost all = xml_steps(xml_content@);
    loop
        invariant_except_break
            well_ended(pending_steps(reader)),
            detect_in(pending_steps(reader)) == detect_in(all),
        invariant
            all == xml_steps(xml_content@),
        ensures
            detect_in(all) == Some(Detection::NotFound),
        decreases pending_steps(reader).len(),
    {
        let ghost before = pending_steps(reader);
        let event = next_xml_event(&mut reader);
        proof {
            assert(before == seq![before[0]] + before.drop_first());
        }
        match classify_event(event) {
            Err(e) => return Err(e),
            Ok(Detection::Found(t)) => return Ok(t),
            Ok(Detection::NotFound) => break,
            Ok(Detection::Pending) => {
                proof {
                    let rest = pending_steps(reader);
                    assert(!(before[0] is Eof) && !(before[0] is Failed));
                    assert(before.len() > 1);
                    assert forall|i: int| 0 <= i < rest.len() - 1 implies !crate::xml::is_last_step(#[trigger] rest[i]) by {
                        assert(rest[i] == before[i + 1]);
                    }
                    assert(rest.last() == before.last());
                }
            },
        }
    }
    Err(YagamiError::InvalidSitemap(String::from_str("Unable to determine sitemap type")))
}

/// Where a scan for `<loc>` entries stands: inside an entry element, inside
/// a `loc` element, and the locations found so far.
pub struct ScanState {
    pub in_entry: bool,
    pub in_loc: bool,
    pub found: Seq<Seq<char>>,
}

/// The outcome of one read of a scan.
pub enum ScanStep {
    Continue(ScanState),
    Done(Seq<Seq<char>>),
    Failure,
}

/// The state before any read.
pub open spec fn initial_scan() -> ScanState {
    ScanState { in_entry: false, in_loc: false, found: seq![] }
}

/// One read of a scan for the `<loc>` texts inside `entry` elements.
/// Opening or empty `entry` enters an entry, opening or empty `loc` inside
/// one enters a location; the first text inside a location is taken (and
/// leaves it); closing `loc` or `entry` leaves it.
pub open spec fn scan_step(entry: Seq<u8>, st: ScanState, step: XmlStep) -> ScanStep {
    match step {
        XmlStep::Start(n) | XmlStep::Empty(n) => ScanStep::Continue(
            if n == entry {
                ScanState { in_entry: true, in_loc: st.in_loc, found: st.found }
            } else if n == loc_tag() && st.in_entry {
                ScanState { in_entry: st.in_entry, in_loc: true, found: st.found }
            } else {
                st
            },
        ),
        XmlStep::Text(t) => if st.in_loc {
            match t {
                Some(u) => ScanStep::Continue(
                    ScanState { in_entry: st.in_entry, in_loc: false, found: st.found.push(u) },
                ),
                None => ScanStep::Failure,
            }
        } else {
            ScanStep::Continue(st)
        },
        XmlStep::End(n) => ScanStep::Continue(
            if n == loc_tag() {
                ScanState { in_entry: st.in_entry, in_loc: false, found: st.found }
            } else if n == entry {
                ScanState { in_entry: false, in_loc: st.in_loc, found: st.found }
            } else {
                st
            },
        ),
        XmlStep::Eof => ScanStep::Done(st.found),
        XmlStep::Failed => ScanStep::Failure,
        XmlStep::Other => ScanStep::Continue(st),
    }
}

/// A whole scan over `steps`, from state `st`.
pub open spec fn scan_steps(entry: Seq<u8>, st: ScanState, steps: Seq<XmlStep>) -> ScanStep
    decreases steps.len(),
{
    if steps.len() == 0 {
        ScanStep::Done(st.found)
    } else {
        match scan_step(entry, st, steps[0]) {
            ScanStep::Continue(next) => scan_steps(entry, next, steps.drop_first()),
            other => other,
        }
    }
}

/// A scan of XML events for the `<loc>` texts of `entry` elements.
pub struct EntryScanner {
    entry: Vec<u8>,
    in_entry: bool,
    in_loc: bool,
    found: Vec<String>,
}

impl EntryScanner {
    /// The name of the entry elements scanned for.
    pub closed spec fn entry_tag(&self) -> Seq<u8> {
        self.entry@
    }

    /// Where the scan stands.
    pub closed spec fn state(&self) -> ScanState {
        ScanState { in_entry: self.in_entry, in_loc: self.in_loc, found: texts(self.found@) }
    }

    pub fn new(entry: Vec<u8>) -> (r: Self)
        ensures
            r.entry_tag() == entry@,
            r.state() == initial_scan(),
    {
        let r = EntryScanner { entry, in_entry: false, in_loc: false, found: Vec::new() };
        assert(texts(r.found@) =~= seq![]);
        r
    }

    /// Takes one read result: `Ok(true)` to read on, `Ok(false)` at the end
    /// of the document, an error where the reader failed or the text of a
    /// location could not be unescaped.
    pub fn feed(&mut self, event: Result<XmlEvent, quick_xml::Error>) -> (r: Result<bool, YagamiError>)
        ensures
            final(self).entry_tag() == old(self).entry_tag(),
            match scan_step(old(self).entry_tag(), old(self).state(), step_of(event)) {
                ScanStep::Continue(next) => r == Ok::<bool, YagamiError>(true) && final(self).state() == next,
                ScanStep::Done(_) => r == Ok::<bool, YagamiError>(false) && final(self).state() == old(self).state(),
                ScanStep::Failure => r matches Err(YagamiError::XmlError(_)),
            },
    {
        let loc = vec![108u8, 111u8, 99u8];
        assert(loc@ == loc_tag());
        match event {
            Err(e) => Err(YagamiError::XmlError(e)),
            Ok(XmlEvent::Start(n)) | Ok(XmlEvent::Empty(n)) => {
                if same_bytes(&n, &self.entry) {
                    self.in_entry = true;
                } else if same_bytes(&n, &loc) && self.in_entry {
                    self.in_loc = true;
                }
                Ok(true)
            },
            Ok(XmlEvent::Text(t)) => {
                if self.in_loc {
                    match t {
                        Ok(url) => {
                            self.found.push(url);
                            self.in_loc = false;
                            assert(texts(self.found@) =~= texts(old(self).found@).push(
                                self.found@.last()@,
                            ));
                            Ok(true)
                        },
                        Err(e) => Err(YagamiError::XmlError(e)),
                    }
                } else {
                    Ok(true)
                }
            },
            Ok(XmlEvent::End(n)) => {
                if same_bytes(&n, &loc) {
                    self.in_loc = false;
                } else if same_bytes(&n, &self.entry) {
                    self.in_entry = false;
                }
                Ok(true)
            },
            Ok(XmlEvent::Eof) => Ok(false),
            Ok(XmlEvent::Other) => Ok(true),
        }
    }

    /// The locations found.
    pub fn into_found(self) -> (r: Vec<String>)
        ensures
            texts(r@) == self.state().found,
    {
        self.found
    }
}

/// The `<loc>` texts of the `entry` elements of `xml_content`, in order.
fn parse_entries(xml_content: &str, entry: Vec<u8>) -> (r: Result<Vec<String>, YagamiError>)
    ensures
        match scan_steps(entry@, initial_scan(), xml_steps(xml_content@)) {
            ScanStep::Done(f) => r matches Ok(v) && texts(v@) == f,
            ScanStep::Failure => r matches Err(YagamiError::XmlError(_)),
            ScanStep::Continue(_) => true,
        },
{
    let ghost tag = entry@;
    let mut scanner = EntryScanner::new(entry);
    let mut reader = xml_reader(xml_content);
    let ghost all = xml_steps(xml_content@);
    loop
        invariant_except_break
            well_ended(pending_steps(reader)),
            scan_steps(tag, scanner.state(), pending_steps(reader)) == scan_steps(tag, initial_scan(), all),
        invariant
            all == xml_steps(xml_content@),
            scanner.entry_tag() == tag,
            tag == entry@,
        ensures
            scan_steps(tag, initial_scan(), all) == ScanStep::Done(scanner.state().found),
        decreases pending_steps(reader).len(),
    {
        let ghost before = pending_steps(reader);
        let ghost st0 = scanner.state();
        let event = next_xml_event(&mut reader);
        match scanner.feed(event) {
            Err(e) => {
                assert(scan_step(tag, st0, before[0]) is Failure);
                assert(scan_steps(tag, st0, before) is Failure);
                return Err(e);
            },
            Ok(false) => break,
            Ok(true) => {
                proof {
                    let rest = pending_steps(reader);
                    assert(!(before[0] is Eof) && !(before[0] is Failed));
                    assert(before.len() > 1);
                    assert forall|i: int| 0 <= i < rest.len() - 1 implies !crate::xml::is_last_step(#[trigger] rest[i]) by {
                        assert(rest[i] == before[i + 1]);
                    }
                    assert(rest.last() == before.last());
                }
            },
        }
    }
    Ok(scanner.into_found())
}

/// The page URLs of a URL set: the `<loc>` text of each `<url>` element, in
/// order; an error where there is none.
pub fn parse_urlset(xml_content: &str) -> (r: Result<Vec<String>, YagamiError>)
    ensures
        match scan_steps(url_tag(), initial_scan(), xml_steps(xml_content@)) {
            ScanStep::Done(f) => if f.len() == 0 {
                r matches Err(YagamiError::InvalidSitemap(m)) && m@ == "No URLs found in urlset"@
            } else {
                r matches Ok(v) && texts(v@) == f
            },
            ScanStep::Failure => r matches Err(YagamiError::XmlError(_)),
            ScanStep::Continue(_) => true,
        },
{
    let tag = vec![117u8, 114u8, 108u8];
    assert(tag@ == url_tag());
    let urls = parse_entries(xml_content, tag)?;
    if urls.len() == 0 {
        return Err(YagamiError::InvalidSitemap(String::from_str("No URLs found in urlset")));
    }
    Ok(urls)
}

/// The nested sitemaps of a sitemap index: the `<loc>` text of each
/// `<sitemap>` element, in order; an error where there is none.
pub fn parse_sitemap_index(xml_content: &str) -> (r: Result<Vec<String>, YagamiError>)
    ensures
        match scan_steps(sitemap_tag(), initial_scan(), xml_steps(xml_content@)) {
            ScanStep::Done(f) => if f.len() == 0 {
                r matches Err(YagamiError::InvalidSitemap(m)) && m@
                    == "No sitemap references found in sitemap index"@
            } else {
                r matches Ok(v) && texts(v@) == f
            },
            ScanStep::Failure => r matches Err(YagamiError::XmlError(_)),
            ScanStep::Continue(_) => true,
        },
{
    let tag = vec![115u8, 105u8, 116u8, 101u8, 109u8, 97u8, 112u8];
    assert(tag@ == sitemap_tag());
    let urls = parse_entries(xml_content, tag)?;
    if urls.len() == 0 {
        return Err(
            YagamiError::InvalidSitemap(String::from_str("No sitemap references found in sitemap index")),
        );
    }
    Ok(urls)
}

/// `r` is what reading the entry list that `outcome` describes gives, with
/// `empty_message` where the list is empty.
pub open spec fn entry_list_result(
    outcome: ScanStep,
    r: Result<Vec<String>, YagamiError>,
    empty_message: Seq<char>,
) -> bool {
    match outcome {
        ScanStep::Done(f) => if f.len() == 0 {
            r matches Err(YagamiError::InvalidSitemap(m)) && m@ == empty_message
        } else {
            r matches Ok(v) && texts(v@) == f
        },
        ScanStep::Failure => r matches Err(YagamiError::XmlError(_)),
        ScanStep::Continue(_) => true,
    }
}

/// What a sitemap file lists: nested sitemaps, or pages.
#[derive(Debug)]
pub enum SitemapContent {
    Index(Vec<String>),
    Pages(Vec<String>),
}

/// The list a sitemap reading gave, whatever its kind.
pub open spec fn listed(r: Result<SitemapContent, YagamiError>) -> Result<Vec<String>, YagamiError> {
    match r {
        Ok(SitemapContent::Index(v)) => Ok(v),
        Ok(SitemapContent::Pages(v)) => Ok(v),
        Err(e) => Err(e),
    }
}

/// Reads a fetched sitemap: a sitemap index gives its nested sitemaps, a URL
/// set its pages.
pub fn read_sitemap(body: &str) -> (r: Result<SitemapContent, YagamiError>)
    ensures
        match detect_in(xml_steps(body@)) {
            Some(Detection::Found(SitemapType::Index)) => {
                &&& r matches Ok(c) ==> c is Index
                &&& entry_list_result(
                    scan_steps(sitemap_tag(), initial_scan(), xml_steps(body@)),
                    listed(r),
                    "No sitemap references found in sitemap index"@,
                )
            },
            Some(Detection::Found(SitemapType::UrlSet)) => {
                &&& r matches Ok(c) ==> c is Pages
                &&& entry_list_result(
                    scan_steps(url_tag(), initial_scan(), xml_steps(body@)),
                    listed(r),
                    "No URLs found in urlset"@,
                )
            },
            Some(_) => r matches Err(YagamiError::InvalidSitemap(m)) && m@
                == "Unable to determine sitemap type"@,
            None => r matches Err(YagamiError::XmlError(_)),
        },
{
    match detect_sitemap_type(body)? {
        SitemapType::Index => {
            let urls = parse_sitemap_index(body)?;
            Ok(SitemapContent::Index(urls))
        },
        SitemapType::UrlSet => {
            let urls = parse_urlset(body)?;
            Ok(SitemapContent::Pages(urls))
        },
    }
}

/// What taking up the sitemap `url` reached through `depth` nested indexes
/// decides, after the sitemaps `visited`: `None` past the depth limit,
/// `Some(true)` to fetch it, `Some(false)` for one taken up before.
pub open spec fn visit_decision(visited: Seq<Seq<char>>, url: Seq<char>, depth: int) -> Option<bool> {
    if depth > MAX_RECURSION_DEPTH {
        None
    } else {
        Some(!visited.contains(url))
    }
}

/// A sitemap is fetched at most once: once taken up, taking it up again at
/// any depth fetches nothing.
pub proof fn law_sitemap_fetched_once(visited: Seq<Seq<char>>, url: Seq<char>, depth: int, later: Seq<Seq<char>>)
    requires
        visit_decision(visited, url, depth) == Some(true),
    ensures
        visit_decision(visited.push(url) + later, url, depth) == Some(false),
{
    assert((visited.push(url) + later)[visited.len() as int] == url);
}

/// Nesting deeper than the limit is refused, whatever was visited.
pub proof fn law_depth_limit(visited: Seq<Seq<char>>, url: Seq<char>, depth: int)
    requires
        depth > MAX_RECURSION_DEPTH,
    ensures
        visit_decision(visited, url, depth) is None,
{
}

/// The sitemaps a fetch has already taken up, each once.
pub struct SitemapVisits {
    visited: Vec<String>,
}

impl View for SitemapVisits {
    type V = Seq<Seq<char>>;

    closed spec fn view(&self) -> Seq<Seq<char>> {
        texts(self.visited@)
    }
}

impl SitemapVisits {
    /// No sitemap is recorded twice.
    #[verifier::type_invariant]
    spec fn recorded_once(&self) -> bool {
        texts(self.visited@).no_duplicates()
    }

    pub fn new() -> (r: Self)
        ensures
            r@ == Seq::<Seq<char>>::empty(),
            r@.no_duplicates(),
    {
        let r = SitemapVisits { visited: Vec::new() };
        assert(r@ =~= Seq::<Seq<char>>::empty());
        r
    }

    /// Whether `url` was taken up already.
    fn seen(&self, url: &String) -> (r: bool)
        ensures
            r == self@.contains(url@),
    {
        let mut i: usize = 0;
        while i < self.visited.len()
            invariant
                i <= self.visited@.len(),
                self@ == texts(self.visited@),
                forall|j: int| 0 <= j < i ==> self@[j] != url@,
            decreases self.visited@.len() - i,
        {
            if self.visited[i] == *url {
                assert(self@[i as int] == url@);
                return true;
            }
            i = i + 1;
        }
        false
    }

    /// Takes up the sitemap at `sitemap_url`, reached through `depth` nested
    /// indexes: an error past the depth limit, `Ok(false)` for a sitemap
    /// taken up before (it gives no pages), else `Ok(true)`: fetch it.
    pub fn begin(&mut self, sitemap_url: &str, depth: usize) -> (r: Result<bool, YagamiError>)
        ensures
            match visit_decision(old(self)@, sitemap_url@, depth as int) {
                Some(fetch) => r == Ok::<bool, YagamiError>(fetch),
                None => r is Err,
            },
            depth > MAX_RECURSION_DEPTH ==> (r matches Err(YagamiError::InvalidSitemap(m)) && m@
                == "Maximum recursion depth exceeded"@) && final(self)@ == old(self)@,
            depth <= MAX_RECURSION_DEPTH && old(self)@.contains(sitemap_url@) ==> r
                == Ok::<bool, YagamiError>(false) && final(self)@ == old(self)@,
            depth <= MAX_RECURSION_DEPTH && !old(self)@.contains(sitemap_url@) ==> r
                == Ok::<bool, YagamiError>(true) && final(self)@ == old(self)@.push(sitemap_url@),
            final(self)@.no_duplicates(),
    {
        proof {
            use_type_invariant(&*self);
        }
        if depth > MAX_RECURSION_DEPTH {
            return Err(YagamiError::InvalidSitemap(String::from_str("Maximum recursion depth exceeded")));
        }
        let url = String::from_str(sitemap_url);
        if self.seen(&url) {
            return Ok(false);
        }
        let ghost before = self@;
        let mut current = SitemapVisits::new();
        std::mem::swap(self, &mut current);
        let mut visited = current.visited;
        visited.push(url);
        assert(texts(visited@) =~= before.push(sitemap_url@));
        *self = SitemapVisits { visited };
        Ok(true)
    }
}

/// What a nested sitemap gave: its pages, or `None` where it failed.
pub open spec fn nested_outcome(nested: Result<Vec<String>, YagamiError>) -> Option<Seq<Seq<char>>> {
    match nested {
        Ok(v) => Some(texts(v@)),
        Err(_) => None,
    }
}

/// The pages of the nested sitemaps that did not fail, in the order the
/// nested sitemaps come.
pub open spec fn gathered_pages(outcomes: Seq<Option<Seq<Seq<char>>>>) -> Seq<Seq<char>>
    decreases outcomes.len(),
{
    if outcomes.len() == 0 {
        Seq::empty()
    } else {
        gathered_pages(outcomes.drop_last()) + match outcomes.last() {
            Some(pages) => pages,
            None => Seq::empty(),
        }
    }
}

/// The pages gathered from the nested sitemaps of an index.
pub struct IndexPages {
    urls: Vec<String>,
    outcomes: Ghost<Seq<Option<Seq<Seq<char>>>>>,
}

impl View for IndexPages {
    type V = Seq<Seq<char>>;

    closed spec fn view(&self) -> Seq<Seq<char>> {
        texts(self.urls@)
    }
}

impl IndexPages {
    /// The pages held are those that the nested sitemaps taken so far gave.
    #[verifier::type_invariant]
    spec fn holds_gathered(&self) -> bool {
        texts(self.urls@) == gathered_pages(self.outcomes@)
    }

    /// What each nested sitemap taken so far gave, in order.
    pub closed spec fn nested(&self) -> Seq<Option<Seq<Seq<char>>>> {
        self.outcomes@
    }

    pub fn new() -> (r: Self)
        ensures
            r@ == Seq::<Seq<char>>::empty(),
            r.nested() == Seq::<Option<Seq<Seq<char>>>>::empty(),
    {
        let urls: Vec<String> = Vec::new();
        assert(texts(urls@) =~= Seq::<Seq<char>>::empty());
        IndexPages { urls, outcomes: Ghost(Seq::empty()) }
    }

    /// Adds what one nested sitemap gave; a nested sitemap that failed adds
    /// nothing.
    pub fn absorb(&mut self, nested: Result<Vec<String>, YagamiError>)
        ensures
            final(self).nested() == old(self).nested().push(nested_outcome(nested)),
            final(self)@ == gathered_pages(final(self).nested()),
            match nested {
                Ok(v) => final(self)@ == old(self)@ + texts(v@),
                Err(_) => final(self)@ == old(self)@,
            },
    {
        proof {
            use_type_invariant(&*self);
        }
        let ghost outcome = nested_outcome(nested);
        let ghost before = self.outcomes@;
        let mut current = IndexPages::new();
        std::mem::swap(self, &mut current);
        let mut urls = current.urls;
        match nested {
            Ok(v) => {
                let mut v = v;
                let ghost added = texts(v@);
                urls.append(&mut v);
                assert(texts(urls@) =~= gathered_pages(before) + added);
            },
            Err(_) => {
                assert(texts(urls@) =~= gathered_pages(before) + Seq::<Seq<char>>::empty());
            },
        }
        assert(before.push(outcome).drop_last() =~= before);
        *self = IndexPages { urls, outcomes: Ghost(before.push(outcome)) };
    }

    /// All pages gathered, in order; an error where there are none.
    pub fn finish(self) -> (r: Result<Vec<String>, YagamiError>)
        ensures
            gathered_pages(self.nested()).len() == 0 ==> (r matches Err(YagamiError::InvalidSitemap(m))
                && m@ == "No URLs found in sitemap index"@),
            gathered_pages(self.nested()).len() > 0 ==> (r matches Ok(v) && texts(v@) == gathered_pages(
                self.nested(),
            )),
            self@.len() == 0 ==> (r matches Err(YagamiError::InvalidSitemap(m)) && m@
                == "No URLs found in sitemap index"@),
            self@.len() > 0 ==> (r matches Ok(v) && texts(v@) == self@),
    {
        proof {
            use_type_invariant(&self);
        }
        if self.urls.len() == 0 {
            return Err(YagamiError::InvalidSitemap(String::from_str("No URLs found in sitemap index")));
        }
        Ok(self.urls)
    }
}

/// An index gives the pages of its nested sitemaps, in their order, passing
/// over those that failed; adding the nested sitemaps one by one gathers the
/// same pages as taking them all at once.
pub proof fn law_index_pages_concatenate(
    first: Seq<Option<Seq<Seq<char>>>>,
    second: Seq<Option<Seq<Seq<char>>>>,
)
    ensures
        gathered_pages(first + second) == gathered_pages(first) + gathered_pages(second),
    decreases second.len(),
{
    if second.len() == 0 {
        assert(first + second =~= first);
        assert(gathered_pages(first) + gathered_pages(second) =~= gathered_pages(first));
    } else {
        law_index_pages_concatenate(first, second.drop_last());
        assert((first + second).drop_last() =~= first + second.drop_last());
        assert((first + second).last() == second.last());
        let tail = match second.last() {
            Some(pages) => pages,
            None => Seq::<Seq<char>>::empty(),
        };
        assert(gathered_pages(first) + gathered_pages(second.drop_last()) + tail =~= gathered_pages(
            first,
        ) + (gathered_pages(second.drop_last()) + tail));
    }
}

/// A nested sitemap that failed adds no page.
pub proof fn law_failed_nested_adds_nothing(outcomes: Seq<Option<Seq<Seq<char>>>>)
    ensures
        gathered_pages(outcomes.push(None)) == gathered_pages(outcomes),
{
    assert(outcomes.push(None).drop_last() =~= outcomes);
    assert(gathered_pages(outcomes) + Seq::<Seq<char>>::empty() =~= gathered_pages(outcomes));
}

/// Opening or empty elements other than the entry element and `loc` (such
/// as `image:loc` or `lastmod`) leave a scan where it stands.
pub proof fn law_other_elements_leave_scan_alone(entry: Seq<u8>, st: ScanState, n: Seq<u8>)
    requires
        n != entry,
        n != seq![108u8, 111u8, 99u8],
    ensures
        scan_step(entry, st, XmlStep::Start(n)) == ScanStep::Continue(st),
        scan_step(entry, st, XmlStep::Empty(n)) == ScanStep::Continue(st),
{
}

/// Inside an entry, an opening or empty element named exactly `loc` starts a
/// location, and the first text after it is taken as the entry's URL.
pub proof fn law_loc_inside_entry_takes_text(entry: Seq<u8>, st: ScanState, u: Seq<char>)
    requires
        st.in_entry,
        entry != seq![108u8, 111u8, 99u8],
    ensures
        scan_step(entry, st, XmlStep::Start(seq![108u8, 111u8, 99u8])) == ScanStep::Continue(
            ScanState { in_entry: true, in_loc: true, found: st.found },
        ),
        scan_step(entry, ScanState { in_entry: true, in_loc: true, found: st.found }, XmlStep::Text(Some(u)))
            == ScanStep::Continue(ScanState { in_entry: true, in_loc: false, found: st.found.push(u) }),
{
}

} // verus!
