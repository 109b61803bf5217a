use vstd::prelude::*;
use scraper::{Html, Selector};
use url::Url;
use crate::text::{chars_of, has_prefix, same_chars, starts_with, texts, trim_chars, trim_str};
use crate::weburl::{drop_fragment, join_url, parse_url, scheme_of, url_join, url_parse, url_string, url_text, url_without_fragment};

verus! {

/// For each element of the HTML document `html` that the CSS selector group
/// `selectors` matches, in the order `Html::select` walks the parsed tree
/// (the order in which the parser made its nodes), the value of its attribute
/// `attr` (`None` where it lacks one); `None` where `selectors` does not
/// parse.
pub uninterp spec fn html_attribute_values(html: Seq<char>, selectors: Seq<char>, attr: Seq<char>) -> Option<Seq<Option<Seq<char>>>>;

/// The texts of a list of optional strings.
pub open spec fn optional_texts(v: Seq<Option<String>>) -> Seq<Option<Seq<char>>> {
    v.map_values(|o: Option<String>| match o {
        Some(s) => Some(s@),
        None => None,
    })
}

/// `scraper`'s `Html::parse_document`, `Selector::parse`, `Html::select` and
/// `ElementRef::attr`: the attribute `attr` of each element that `selectors`
/// matches, in the order `Html::select` gives them, as named by
/// `html_attribute_values`.
#[verifier::external_body]
fn select_attribute(html: &str, selectors: &str, attr: &str) -> (r: Option<Vec<Option<String>>>)
    ensures
        match html_attribute_values(html@, selectors@, attr@) {
            None => r is None,
            Some(values) => r matches Some(v) && optional_texts(v@) == values,
        },
{
    let selector = Selector::parse(selectors).ok()?;
    let document = Html::parse_document(html);
    Some(document.select(&selector).map(|e| e.attr(attr).map(|a| a.to_string())).collect())
}

/// The text of `t` before its first `:` (all of it where there is none).
pub open spec fn before_colon(t: Seq<char>) -> Seq<char>
    decreases t.len(),
{
    if t.len() == 0 {
        t
    } else if t[0] == ':' {
        Seq::empty()
    } else {
        seq![t[0]] + before_colon(t.drop_first())
    }
}

proof fn lemma_before_colon(t: Seq<char>, n: int)
    requires
        0 <= n < t.len(),
        t[n] == ':',
        !t.take(n).contains(':'),
    ensures
        before_colon(t) == t.take(n),
    decreases n,
{
    if n == 0 {
        assert(t.take(0) =~= Seq::<char>::empty());
    } else {
        assert(t.take(n)[0] == t[0]);
        let u = t.drop_first();
        assert forall|c: char| u.take(n - 1).contains(c) implies t.take(n).contains(c) by {
            let k = choose|k: int| 0 <= k < n - 1 && #[trigger] u.take(n - 1)[k] == c;
            assert(t.take(n)[k + 1] == c);
        }
        lemma_before_colon(u, n - 1);
        assert(t.take(n) =~= seq![t[0]] + u.take(n - 1));
    }
}

/// A link target that is dropped before resolving: a `javascript:`,
/// `mailto:`, `tel:` or `data:` link, a bare fragment, or nothing.
pub open spec fn is_skipped_target(t: Seq<char>) -> bool {
    ||| has_prefix(t, "javascript:"@)
    ||| has_prefix(t, "mailto:"@)
    ||| has_prefix(t, "tel:"@)
    ||| has_prefix(t, "data:"@)
    ||| has_prefix(t, "#"@)
    ||| t.len() == 0
}

/// Whether the URL with serialization `t` is an `http` or `https` URL.
pub open spec fn is_web_url(t: Seq<char>) -> bool {
    before_colon(t) == "http"@ || before_colon(t) == "https"@
}

/// The absolute form of the link `href` found on the page whose URL has
/// serialization `base`: trimmed, resolved against `base`, kept only for
/// `http` and `https`, without its fragment.
pub open spec fn normalized_link(href: Seq<char>, base: Seq<char>) -> Option<Seq<char>> {
    let t = trim_chars(href);
    if is_skipped_target(t) {
        None
    } else {
        match url_join(base, t) {
            None => None,
            Some(j) => if is_web_url(j) {
                Some(url_without_fragment(j))
            } else {
                None
            },
        }
    }
}

/// The links that the attribute values `values` give on a page whose URL
/// has serialization `base`, in order.
pub open spec fn links_from(values: Seq<Option<Seq<char>>>, base: Seq<char>) -> Seq<Seq<char>>
    decreases values.len(),
{
    if values.len() == 0 {
        Seq::empty()
    } else {
        let before = links_from(values.drop_last(), base);
        match values.last() {
            Some(v) => match normalized_link(v, base) {
                Some(l) => before.push(l),
                None => before,
            },
            None => before,
        }
    }
}

/// The links that the elements `selectors` matches give through their
/// attribute `attr`.
pub open spec fn selected_links(html: Seq<char>, selectors: Seq<char>, attr: Seq<char>, base: Seq<char>) -> Seq<Seq<char>> {
    match html_attribute_values(html, selectors, attr) {
        None => Seq::empty(),
        Some(values) => links_from(values, base),
    }
}

/// The links of the page `html` at `base_url`: the `href` of `<a>` and
/// `<link>` elements, then the `src` of `<img>`, `<script>` and `<iframe>`
/// elements; none where `base_url` does not parse.
pub open spec fn extracted_links(html: Seq<char>, base_url: Seq<char>) -> Seq<Seq<char>> {
    match url_parse(base_url) {
        None => Seq::empty(),
        Some(b) => selected_links(html, "a[href], link[href]"@, "href"@, b) + selected_links(
            html,
            "img[src], script[src], iframe[src]"@,
            "src"@,
            b,
        ),
    }
}

/// The absolute form of the link `href` found on the page at `base`, or
/// `None` for a link that is not followed.
pub fn normalize_url(href: &str, base: &Url) -> (r: Option<String>)
    ensures
        match normalized_link(href@, url_text(*base)) {
            None => r is None,
            Some(l) => r matches Some(s) && s@ == l,
        },
{
    let trimmed = trim_str(href);
    let t = chars_of(trimmed);
    if starts_with(&t, &chars_of("javascript:")) || starts_with(&t, &chars_of("mailto:")) || starts_with(
        &t,
        &chars_of("tel:"),
    ) || starts_with(&t, &chars_of("data:")) || starts_with(&t, &chars_of("#")) || t.len() == 0 {
        return None;
    }
    let mut url = match join_url(base, trimmed) {
        Ok(u) => u,
        Err(_) => return None,
    };
    let scheme = chars_of(scheme_of(&url));
    proof {
        lemma_before_colon(url_text(url), scheme@.len() as int);
    }
    if !same_chars(&scheme, &chars_of("http")) && !same_chars(&scheme, &chars_of("https")) {
        return None;
    }
    drop_fragment(&mut url);
    Some(url_string(&url))
}

/// Appends to `links`, in order, the links that the attribute values
/// `values` give on the page at `base`.
pub fn collect_links(values: &Vec<Option<String>>, base: &Url, links: &mut Vec<String>)
    ensures
        texts(final(links)@) == texts(old(links)@) + links_from(optional_texts(values@), url_text(*base)),
{
    let ghost start = texts(links@);
    let ghost vals = optional_texts(values@);
    let mut i: usize = 0;
    while i < values.len()
        invariant
            i <= values@.len(),
            vals == optional_texts(values@),
            texts(links@) == start + links_from(vals.take(i as int), url_text(*base)),
        decreases values@.len() - i,
    {
        assert(vals.take(i + 1).drop_last() =~= vals.take(i as int));
        let ghost before = texts(links@);
        match &values[i] {
            Some(v) => {
                match normalize_url(v.as_str(), base) {
                    Some(link) => {
                        links.push(link);
                        assert(texts(links@) =~= before.push(links@.last()@));
                    },
                    None => {},
                }
            },
            None => {},
        }
        i = i + 1;
    }
    assert(vals.take(values@.len() as int) =~= vals);
}

/// The links of the HTML page `html` found at `base_url`, in order: the
/// `href` of each `<a>` and `<link>` element, then the `src` of each
/// `<img>`, `<script>` and `<iframe>` element, each resolved and kept as
/// `normalize_url` says.
pub fn extract_links(html: &str, base_url: &str) -> (r: Vec<String>)
    ensures
        texts(r@) == extracted_links(html@, base_url@),
{
    let mut links: Vec<String> = Vec::new();
    let base = match parse_url(base_url) {
        Ok(url) => url,
        Err(_) => {
            assert(texts(links@) =~= Seq::<Seq<char>>::empty());
            return links;
        },
    };
    assert(texts(links@) =~= Seq::<Seq<char>>::empty());
    if let Some(values) = select_attribute(html, "a[href], link[href]", "href") {
        collect_links(&values, &base, &mut links);
    }
    let ghost first = texts(links@);
    if let Some(values) = select_attribute(html, "img[src], script[src], iframe[src]", "src") {
        collect_links(&values, &base, &mut links);
    } else {
        assert(texts(links@) =~= first + Seq::<Seq<char>>::empty());
    }
    links
}

/// Links to `javascript:`, `mailto:`, `tel:` and `data:` targets, bare
/// fragments and empty links (after trimming) give no link.
pub proof fn law_skipped_targets_give_no_link(href: Seq<char>, base: Seq<char>)
    requires
        is_skipped_target(trim_chars(href)),
    ensures
        normalized_link(href, base) is None,
{
}

/// Every link kept is the fragment-less form of an `http` or `https` URL
/// that the trimmed target resolves to against the page's URL.
pub proof fn law_kept_links_are_web_urls(href: Seq<char>, base: Seq<char>)
    ensures
        normalized_link(href, base) matches Some(l) ==> (url_join(base, trim_chars(href)) matches Some(j)
            && is_web_url(j) && l == url_without_fragment(j)),
{
}

/// Links are kept in the order their elements come, and a missing attribute
/// or a dropped target leaves the others in place.
pub proof fn law_links_keep_order(a: Seq<Option<Seq<char>>>, b: Seq<Option<Seq<char>>>, base: Seq<char>)
    ensures
        links_from(a + b, base) == links_from(a, base) + links_from(b, base),
    decreases b.len(),
{
    if b.len() == 0 {
        assert(a + b =~= a);
        assert(links_from(a, base) + links_from(b, base) =~= links_from(a, base));
    } else {
        law_links_keep_order(a, b.drop_last(), base);
        assert((a + b).drop_last() =~= a + b.drop_last());
        assert((a + b).last() == b.last());
        let pre = links_from(a, base) + links_from(b.drop_last(), base);
        match b.last() {
            Some(v) => match normalized_link(v, base) {
                Some(l) => {
                    assert(pre.push(l) =~= links_from(a, base) + links_from(b.drop_last(), base).push(l));
                },
                None => {},
            },
            None => {},
        }
    }
}

/// The links of a page are the `href` links of the elements that
/// `a[href], link[href]` matches, followed by the `src` links of the elements
/// that `img[src], script[src], iframe[src]` matches; a page whose own URL
/// does not parse has none.
pub proof fn law_links_come_from_both_selector_groups(html: Seq<char>, base_url: Seq<char>)
    ensures
        extracted_links(html, base_url) == match url_parse(base_url) {
            None => Seq::<Seq<char>>::empty(),
            Some(b) => (match html_attribute_values(html, "a[href], link[href]"@, "href"@) {
                None => Seq::<Seq<char>>::empty(),
                Some(values) => links_from(values, b),
            }) + (match html_attribute_values(html, "img[src], script[src], iframe[src]"@, "src"@) {
                None => Seq::<Seq<char>>::empty(),
                Some(values) => links_from(values, b),
            }),
        },
{
}

/// One attribute value gives exactly the link its target normalizes to, or
/// none; a missing attribute gives none.
pub proof fn law_one_value_gives_its_link(v: Seq<char>, base: Seq<char>)
    ensures
        links_from(seq![Some(v)], base) == match normalized_link(v, base) {
            Some(l) => seq![l],
            None => Seq::<Seq<char>>::empty(),
        },
        links_from(seq![None], base) == Seq::<Seq<char>>::empty(),
{
    let one = seq![Some(v)];
    assert(one.drop_last() =~= Seq::<Option<Seq<char>>>::empty());
    assert(one.len() == 1 && one.last() == Some(v));
    assert(links_from(one.drop_last(), base) == Seq::<Seq<char>>::empty());
    let none = seq![None::<Seq<char>>];
    assert(none.drop_last() =~= Seq::<Option<Seq<char>>>::empty());
    assert(none.len() == 1 && none.last() == None::<Seq<char>>);
    assert(links_from(none.drop_last(), base) == Seq::<Seq<char>>::empty());
    match normalized_link(v, base) {
        Some(l) => {
            assert(Seq::<Seq<char>>::empty().push(l) =~= seq![l]);
        },
        None => {},
    }
}

/// `http:` and `https:` URLs are web URLs.
proof fn lemma_web_prefix(j: Seq<char>)
    requires
        has_prefix(j, "http:"@) || has_prefix(j, "https:"@),
    ensures
        is_web_url(j),
{
    reveal_strlit("http:");
    reveal_strlit("https:");
    reveal_strlit("http");
    reveal_strlit("https");
    if has_prefix(j, "http:"@) {
        assert(j.take(5) == "http:"@);
        assert forall|k: int| 0 <= k < 5 implies j[k] == "http:"@[k] by {
            assert(j.take(5)[k] == j[k]);
        }
        assert(j[4] == ':');
        assert(!j.take(4).contains(':')) by {
            if j.take(4).contains(':') {
                let k = choose|k: int| 0 <= k < 4 && j.take(4)[k] == ':';
                assert(j.take(5)[k] == j[k]);
            }
        }
        lemma_before_colon(j, 4);
        assert forall|k: int| 0 <= k < 4 implies j.take(4)[k] == "http"@[k] by {
            assert(j.take(4)[k] == j[k]);
        }
        assert(j.take(4) =~= "http"@);
    } else {
        assert(j.take(6) == "https:"@);
        assert forall|k: int| 0 <= k < 6 implies j[k] == "https:"@[k] by {
            assert(j.take(6)[k] == j[k]);
        }
        assert(j[5] == ':');
        assert(!j.take(5).contains(':')) by {
            if j.take(5).contains(':') {
                let k = choose|k: int| 0 <= k < 5 && j.take(5)[k] == ':';
                assert(j.take(6)[k] == j[k]);
            }
        }
        lemma_before_colon(j, 5);
        assert forall|k: int| 0 <= k < 5 implies j.take(5)[k] == "https"@[k] by {
            assert(j.take(5)[k] == j[k]);
        }
        assert(j.take(5) =~= "https"@);
    }
}

/// A link target (after trimming) that is not empty and does not start with
/// `javascript:`, `mailto:`, `tel:`, `data:` or `#`, and that resolves
/// against the page's URL to an `http:` or `https:` URL, is kept, as that
/// URL without its fragment; relative, protocol-relative and absolute
/// targets alike.
pub proof fn law_resolved_web_links_are_kept(href: Seq<char>, base: Seq<char>, j: Seq<char>)
    requires
        trim_chars(href).len() > 0,
        !has_prefix(trim_chars(href), "javascript:"@),
        !has_prefix(trim_chars(href), "mailto:"@),
        !has_prefix(trim_chars(href), "tel:"@),
        !has_prefix(trim_chars(href), "data:"@),
        !has_prefix(trim_chars(href), "#"@),
        url_join(base, trim_chars(href)) == Some(j),
        has_prefix(j, "http:"@) || has_prefix(j, "https:"@),
    ensures
        normalized_link(href, base) == Some(url_without_fragment(j)),
{
    lemma_web_prefix(j);
}

/// A link target that does not resolve against the page's URL gives no link.
pub proof fn law_unresolvable_links_are_dropped(href: Seq<char>, base: Seq<char>)
    requires
        url_join(base, trim_chars(href)) is None,
    ensures
        normalized_link(href, base) is None,
{
}

} // verus!
