use vstd::prelude::*;
use crate::text::{chars_of, contains, ends_with, has_infix, has_prefix, has_suffix, same_chars, starts_with};
use crate::weburl::{host_of, parse_url, url_host, url_parse};

verus! {

/// `://`, whose absence (with that of `/`) marks a domain pattern.
pub open spec fn scheme_separator() -> Seq<char> {
    seq![':', '/', '/']
}

/// `/*`, the ending of a wildcard pattern.
pub open spec fn wildcard_ending() -> Seq<char> {
    seq!['/', '*']
}

/// A pattern that is a bare domain such as `example.com`.
pub open spec fn is_domain_pattern(p: Seq<char>) -> bool {
    !has_infix(p, scheme_separator()) && !p.contains('/')
}

/// A pattern that ends in `/*`, such as `https://example.com/api/*`.
pub open spec fn is_wildcard_pattern(p: Seq<char>) -> bool {
    has_suffix(p, wildcard_ending())
}

/// A host matches a domain pattern when it is that domain or one of its
/// subdomains.
pub open spec fn host_matches(p: Seq<char>, host: Option<Seq<char>>) -> bool {
    match host {
        Some(h) => h == p || has_suffix(h, seq!['.'] + p),
        None => false,
    }
}

/// Whether pattern `p` matches `url`, given what parsing `url` gave:
/// `None` where it did not parse, else the parsed URL's host.
pub open spec fn pattern_accepts(p: Seq<char>, url: Seq<char>, parsed: Option<Option<Seq<char>>>) -> bool {
    match parsed {
        None => false,
        Some(host) => if is_domain_pattern(p) {
            host_matches(p, host)
        } else if is_wildcard_pattern(p) {
            has_prefix(url, p.drop_last())
        } else {
            url == p
        },
    }
}

/// What parsing `url` gives: `None` where it does not parse, else the host
/// of the parsed URL.
pub open spec fn parsed_host(url: Seq<char>) -> Option<Option<Seq<char>>> {
    match url_parse(url) {
        None => None,
        Some(t) => Some(url_host(t)),
    }
}

/// Whether pattern `p` matches `url`.
pub open spec fn pattern_matches(p: Seq<char>, url: Seq<char>) -> bool {
    pattern_accepts(p, url, parsed_host(url))
}

/// `seq![c] + v`.
fn prefixed(c: char, v: &Vec<char>) -> (r: Vec<char>)
    ensures
        r@ == seq![c] + v@,
{
    let mut r: Vec<char> = Vec::new();
    r.push(c);
    let mut i: usize = 0;
    while i < v.len()
        invariant
            i <= v@.len(),
            r@ == seq![c] + v@.take(i as int),
        decreases v@.len() - i,
    {
        r.push(v[i]);
        i = i + 1;
        assert(r@ =~= seq![c] + v@.take(i as int));
    }
    assert(v@.take(v@.len() as int) =~= v@);
    r
}

/// A pattern of links to leave unchecked.
#[derive(Debug, Clone)]
pub struct ExcludePattern {
    pattern: String,
}

impl View for ExcludePattern {
    type V = Seq<char>;

    closed spec fn view(&self) -> Seq<char> {
        self.pattern@
    }
}

impl ExcludePattern {
    pub fn new(pattern: String) -> (r: Self)
        ensures
            r@ == pattern@,
    {
        Self { pattern }
    }

    /// Whether this pattern matches `url`, given what parsing `url` gave:
    /// `None` where it did not parse, else the parsed URL's host.
    pub fn matches_parsed(&self, url: &str, parsed: Option<Option<&str>>) -> (r: bool)
        ensures
            r == pattern_accepts(self@, url@, match parsed {
                None => None,
                Some(h) => Some(match h {
                    None => None,
                    Some(h) => Some(h@),
                }),
            }),
    {
        let host = match parsed {
            None => return false,
            Some(h) => h,
        };
        let p = chars_of(self.pattern.as_str());
        let sep = vec![':', '/', '/'];
        let slash = vec!['/'];
        assert(slash@ == seq!['/']);
        let has_slash = contains(&p, &slash);
        proof {
            if p@.contains('/') {
                let k = choose|k: int| 0 <= k < p@.len() && p@[k] == '/';
                assert(p@.subrange(k, k + 1) =~= slash@);
            }
            if has_slash {
                let k = choose|k: int| 0 <= k && k + slash@.len() <= p@.len() && #[trigger] p@.subrange(k, k + slash@.len()) == slash@;
                assert(p@.subrange(k, k + 1)[0] == p@[k]);
            }
        }
        if !contains(&p, &sep) && !has_slash {
            assert(sep@ == scheme_separator());
            return match host {
                Some(h) => {
                    let hc = chars_of(h);
                    let dotted = prefixed('.', &p);
                    same_chars(&hc, &p) || ends_with(&hc, &dotted)
                },
                None => false,
            };
        }
        assert(is_domain_pattern(self@) == false) by {
            assert(sep@ == scheme_separator());
        }
        let ending = vec!['/', '*'];
        assert(ending@ == wildcard_ending());
        let u = chars_of(url);
        if ends_with(&p, &ending) {
            let mut prefix = p.clone();
            assert(prefix@ == p@);
            prefix.pop();
            assert(prefix@ =~= p@.drop_last());
            return starts_with(&u, &prefix);
        }
        same_chars(&u, &p)
    }

    /// Whether this pattern matches `url`. A URL that does not parse matches
    /// nothing. A bare domain matches that host and its subdomains, whatever
    /// the scheme; a pattern ending in `/*` matches the URLs that start with
    /// it less the `*`; any other pattern matches only the very same URL.
    pub fn matches(&self, url: &str) -> (r: bool)
        ensures
            r == pattern_matches(self@, url@),
    {
        match parse_url(url) {
            Err(_) => self.matches_parsed(url, None),
            Ok(u) => {
                let host = host_of(&u);
                self.matches_parsed(url, Some(host))
            },
        }
    }
}

/// A set of exclude patterns.
#[derive(Debug, Clone)]
pub struct ExcludeFilter {
    patterns: Vec<ExcludePattern>,
}

impl View for ExcludeFilter {
    type V = Seq<Seq<char>>;

    closed spec fn view(&self) -> Seq<Seq<char>> {
        self.patterns@.map_values(|p: ExcludePattern| p@)
    }
}

/// Whether some pattern of `patterns` matches `url`.
pub open spec fn any_pattern_matches(patterns: Seq<Seq<char>>, url: Seq<char>) -> bool {
    exists|i: int| 0 <= i < patterns.len() && #[trigger] pattern_matches(patterns[i], url)
}

impl ExcludeFilter {
    pub fn new(patterns: Vec<String>) -> (r: Self)
        ensures
            r@ == patterns@.map_values(|s: String| s@),
    {
        let mut out: Vec<ExcludePattern> = Vec::new();
        let mut i: usize = 0;
        let mut rest = patterns;
        let ghost all = rest@;
        while i < rest.len()
            invariant
                rest@ == all,
                i <= all.len(),
                out@.len() == i,
                forall|j: int| 0 <= j < i ==> #[trigger] out@[j]@ == all[j]@,
            decreases all.len() - i,
        {
            let s = rest[i].clone();
            out.push(ExcludePattern::new(s));
            i = i + 1;
        }
        let r = Self { patterns: out };
        assert(r@ =~= all.map_values(|s: String| s@));
        r
    }

    /// Whether some pattern matches `url`.
    pub fn should_exclude(&self, url: &str) -> (r: bool)
        ensures
            r == any_pattern_matches(self@, url@),
    {
        let mut i: usize = 0;
        while i < self.patterns.len()
            invariant
                i <= self@.len(),
                self@.len() == self.patterns@.len(),
                forall|j: int| 0 <= j < i ==> !#[trigger] pattern_matches(self@[j], url@),
            decreases self.patterns@.len() - i,
        {
            if self.patterns[i].matches(url) {
                assert(pattern_matches(self@[i as int], url@));
                return true;
            }
            i = i + 1;
        }
        false
    }

    pub fn is_empty(&self) -> (r: bool)
        ensures
            r == (self@.len() == 0),
    {
        self.patterns.len() == 0
    }

    pub fn count(&self) -> (r: usize)
        ensures
            r == self@.len(),
    {
        self.patterns.len()
    }
}

/// A filter without patterns excludes no URL.
pub proof fn law_empty_filter_excludes_nothing(url: Seq<char>)
    ensures
        !any_pattern_matches(Seq::empty(), url),
{
}

/// A bare domain pattern looks at the host alone: two URLs that parse to the
/// same host, such as the `http://` and `https://` forms of one address, are
/// matched alike.
pub proof fn law_domain_pattern_ignores_scheme(p: Seq<char>, a: Seq<char>, b: Seq<char>)
    requires
        is_domain_pattern(p),
        url_parse(a) is Some,
        url_parse(b) is Some,
        url_host(url_parse(a).unwrap()) == url_host(url_parse(b).unwrap()),
    ensures
        pattern_matches(p, a) == pattern_matches(p, b),
{
}

/// A bare domain pattern matches the URLs whose host is that domain or one
/// of its subdomains, and no other.
pub proof fn law_domain_pattern_matches_host_and_subdomains(p: Seq<char>, url: Seq<char>)
    requires
        is_domain_pattern(p),
    ensures
        pattern_matches(p, url) <==> (parsed_host(url) matches Some(Some(h)) && (h == p || has_suffix(
            h,
            seq!['.'] + p,
        ))),
{
}

/// A pattern ending in `/*` matches exactly the URLs that parse and begin
/// with the pattern less its final `*`.
pub proof fn law_wildcard_pattern_is_prefix(p: Seq<char>, url: Seq<char>)
    requires
        is_wildcard_pattern(p),
    ensures
        pattern_matches(p, url) <==> (url_parse(url) is Some && has_prefix(url, p.drop_last())),
{
    assert(p[p.len() - 2] == p.skip(p.len() - 2)[0]);
    assert(p.contains('/'));
}

/// Any other pattern matches only the very same URL, where it parses.
pub proof fn law_other_pattern_is_exact(p: Seq<char>, url: Seq<char>)
    requires
        !is_domain_pattern(p),
        !is_wildcard_pattern(p),
    ensures
        pattern_matches(p, url) <==> (url_parse(url) is Some && url == p),
{
}

/// A URL that does not parse is excluded by no pattern.
pub proof fn law_unparsable_url_never_excluded(patterns: Seq<Seq<char>>, url: Seq<char>)
    requires
        url_parse(url) is None,
    ensures
        !any_pattern_matches(patterns, url),
{
}

/// Any pattern without `://` and without `/` (such as `example.com` or
/// `google-analytics.com`) matches exactly the URLs whose host is that domain
/// or ends in `.` followed by it.
pub proof fn law_bare_domain_text_matches_host_or_subdomain(p: Seq<char>, url: Seq<char>)
    requires
        !has_infix(p, seq![':', '/', '/']),
        !p.contains('/'),
    ensures
        pattern_matches(p, url) <==> (parsed_host(url) matches Some(Some(h)) && (h == p || has_suffix(
            h,
            seq!['.'] + p,
        ))),
{
}

} // verus!
