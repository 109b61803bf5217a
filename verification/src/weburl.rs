use vstd::prelude::*;
use url::Url;

verus! {

#[verifier::external_type_specification]
#[verifier::external_body]
pub struct ExUrl(url::Url);

#[verifier::external_type_specification]
#[verifier::external_body]
pub struct ExUrlParseError(url::ParseError);

/// The serialization that a `url::Url` holds: the text `Url::as_str` returns,
/// by which two URLs compare equal.
pub uninterp spec fn url_text(u: url::Url) -> Seq<char>;

/// The serialization of the URL that `Url::parse` makes of `input`, or
/// `None` where it returns an error.
pub uninterp spec fn url_parse(input: Seq<char>) -> Option<Seq<char>>;

/// The serialization of the URL that `Url::join` makes of `input` against
/// the base URL whose serialization is `base`, or `None` where it fails.
pub uninterp spec fn url_join(base: Seq<char>, input: Seq<char>) -> Option<Seq<char>>;

/// What `Url::host_str` returns for the URL whose serialization is `text`.
pub uninterp spec fn url_host(text: Seq<char>) -> Option<Seq<char>>;

/// The serialization left after `Url::set_fragment(None)` on the URL whose
/// serialization is `text`.
pub uninterp spec fn url_without_fragment(text: Seq<char>) -> Seq<char>;

/// `Url::parse`: succeeds exactly where the named result is a URL, and then
/// holds that URL.
#[verifier::external_body]
pub(crate) fn parse_url(input: &str) -> (r: Result<Url, url::ParseError>)
    ensures
        r is Ok <==> url_parse(input@) is Some,
        r matches Ok(u) ==> url_parse(input@) == Some(url_text(u)),
{
    Url::parse(input)
}

/// `Url::join`: resolves `input` against `base`; succeeds exactly where the
/// named result is a URL, and then holds that URL.
#[verifier::external_body]
pub(crate) fn join_url(base: &Url, input: &str) -> (r: Result<Url, url::ParseError>)
    ensures
        r is Ok <==> url_join(url_text(*base), input@) is Some,
        r matches Ok(u) ==> url_join(url_text(*base), input@) == Some(url_text(u)),
{
    base.join(input)
}

/// `Url::host_str`: the host of the URL, named as a function of its
/// serialization.
#[verifier::external_body]
pub(crate) fn host_of(u: &Url) -> (r: Option<&str>)
    ensures
        r is Some <==> url_host(url_text(*u)) is Some,
        r matches Some(h) ==> url_host(url_text(*u)) == Some(h@),
{
    u.host_str()
}

/// `Url::scheme`: the serialization starts with the scheme, then `:`; the
/// scheme (ASCII letters, digits, `+`, `-`, `.`) holds no `:`.
#[verifier::external_body]
pub(crate) fn scheme_of(u: &Url) -> (r: &str)
    ensures
        r@.len() < url_text(*u).len(),
        url_text(*u).take(r@.len() as int) == r@,
        url_text(*u)[r@.len() as int] == ':',
        !r@.contains(':'),
{
    u.scheme()
}

/// `Url::set_fragment(None)`: drops the fragment.
#[verifier::external_body]
pub(crate) fn drop_fragment(u: &mut Url)
    ensures
        url_text(*final(u)) == url_without_fragment(url_text(*old(u))),
{
    u.set_fragment(None)
}

/// `Url::to_string`: the `Display` of a URL writes its serialization.
#[verifier::external_body]
pub(crate) fn url_string(u: &Url) -> (r: String)
    ensures
        r@ == url_text(*u),
{
    u.to_string()
}

} // verus!
