//! Parsed URLs, read through the `url` crate's WHATWG parser.
use vstd::prelude::*;

verus! {

/// The `url` crate's parsed URL.
#[verifier::external_type_specification]
#[verifier::external_body]
pub struct ExUrl(url::Url);

/// Whether `url::Url::parse` accepts the text.
pub uninterp spec fn url_parses(text: Seq<char>) -> bool;

/// The scheme `url::Url::scheme` reports for the URL parsed from the text.
pub uninterp spec fn url_scheme(text: Seq<char>) -> Seq<char>;

/// The host `url::Url::host_str` reports for the URL parsed from the text.
pub uninterp spec fn url_host_str(text: Seq<char>) -> Option<Seq<char>>;

/// The path `url::Url::path` reports for the URL parsed from the text.
pub uninterp spec fn url_path(text: Seq<char>) -> Seq<char>;

/// The explicit port the `url` crate reports for the URL parsed from the text (`None`
/// when it is absent or the scheme's default).
pub uninterp spec fn url_port(text: Seq<char>) -> Option<u16>;

/// The query `url::Url::query` reports for the URL parsed from the text.
pub uninterp spec fn url_query(text: Seq<char>) -> Option<Seq<char>>;

/// The fragment `url::Url::fragment` reports for the URL parsed from the text.
pub uninterp spec fn url_fragment(text: Seq<char>) -> Option<Seq<char>>;

/// The serialization `url::Url::as_str` reports for the URL parsed from the text.
pub uninterp spec fn url_serialization(text: Seq<char>) -> Seq<char>;

/// The decoded pairs `url::Url::query_pairs` yields, in order, for the URL parsed from
/// the text.
pub uninterp spec fn url_query_pairs(text: Seq<char>) -> Seq<(Seq<char>, Seq<char>)>;

/// The `application/x-www-form-urlencoded` text `form_urlencoded::Serializer` builds
/// from the pairs, in order.
pub uninterp spec fn form_urlencoded_pairs(pairs: Seq<(Seq<char>, Seq<char>)>) -> Seq<char>;

/// The message `url::ParseError`'s `Display` gives when `url::Url::parse` refuses
/// the text.
pub uninterp spec fn url_parse_error(text: Seq<char>) -> Seq<char>;

/// Calls `url::Url::parse` and, when it refuses the text, renders the error with
/// `to_string`; `None` when the text parses.
#[verifier::external_body]
fn parse_error_of(input: &str) -> (r: Option<String>)
    ensures
        match r {
            Some(m) => !url_parses(input@) && m@ == url_parse_error(input@),
            None => url_parses(input@),
        },
{
    url::Url::parse(input).err().map(|error| error.to_string())
}

/// Why the parser refuses a text, or `None` if it accepts it.
pub fn url_parse_failure(input: &str) -> (r: Option<String>)
    ensures
        match r {
            Some(m) => !url_parses(input@) && m@ == url_parse_error(input@),
            None => url_parses(input@),
        },
{
    parse_error_of(input)
}

/// A URL parsed from a text; its value is that text, and every reading of it is what
/// the `url` crate reports for the URL parsed from it.
pub struct WebUrl {
    inner: url::Url,
    text: Ghost<Seq<char>>,
}

impl View for WebUrl {
    type V = Seq<char>;

    closed spec fn view(&self) -> Seq<char> {
        self.text@
    }
}

/// Calls `url::Url::parse`; `Some` exactly when the parser accepts the text.
#[verifier::external_body]
fn parse_url(input: &str) -> (r: Option<url::Url>)
    ensures
        r is Some <==> url_parses(input@),
{
    url::Url::parse(input).ok()
}

/// The views of string pairs.
pub open spec fn pair_views(v: Seq<(String, String)>) -> Seq<(Seq<char>, Seq<char>)> {
    v.map_values(|p: (String, String)| (p.0@, p.1@))
}

/// Calls `url::Url::scheme` on a URL parsed from `u@`.
#[verifier::external_body]
fn scheme_of(u: &WebUrl) -> (s: String)
    ensures
        s@ == url_scheme(u@),
{
    u.inner.scheme().to_string()
}

/// Calls `url::Url::host_str` on a URL parsed from `u@`.
#[verifier::external_body]
fn host_str_of(u: &WebUrl) -> (h: Option<String>)
    ensures
        match h {
            Some(h) => url_host_str(u@) == Some(h@),
            None => url_host_str(u@) is None,
        },
{
    u.inner.host_str().map(|h| h.to_string())
}

/// Calls `url::Url::port` on a URL parsed from `u@`.
#[verifier::external_body]
fn port_of(u: &WebUrl) -> (p: Option<u16>)
    ensures
        p == url_port(u@),
{
    u.inner.port()
}

/// Calls `url::Url::path` on a URL parsed from `u@`.
#[verifier::external_body]
fn path_of(u: &WebUrl) -> (p: String)
    ensures
        p@ == url_path(u@),
{
    u.inner.path().to_string()
}

/// Calls `url::Url::query` on a URL parsed from `u@`.
#[verifier::external_body]
fn query_of(u: &WebUrl) -> (q: Option<String>)
    ensures
        match q {
            Some(q) => url_query(u@) == Some(q@),
            None => url_query(u@) is None,
        },
{
    u.inner.query().map(|q| q.to_string())
}

/// Calls `url::Url::fragment` on a URL parsed from `u@`.
#[verifier::external_body]
fn fragment_of(u: &WebUrl) -> (f: Option<String>)
    ensures
        match f {
            Some(f) => url_fragment(u@) == Some(f@),
            None => url_fragment(u@) is None,
        },
{
    u.inner.fragment().map(|f| f.to_string())
}

/// Calls `url::Url::as_str` on a URL parsed from `u@`.
#[verifier::external_body]
fn serialization_of(u: &WebUrl) -> (s: String)
    ensures
        s@ == url_serialization(u@),
{
    u.inner.as_str().to_string()
}

/// Collects `url::Url::query_pairs` of a URL parsed from `u@`.
#[verifier::external_body]
fn query_pairs_of(u: &WebUrl) -> (p: Vec<(String, String)>)
    ensures
        pair_views(p@) == url_query_pairs(u@),
{
    u.inner.query_pairs().map(|(k, v)| (k.into_owned(), v.into_owned())).collect()
}

/// Serializes the pairs with `form_urlencoded::Serializer`, in order.
#[verifier::external_body]
fn form_urlencode(pairs: &Vec<(String, String)>) -> (s: String)
    ensures
        s@ == form_urlencoded_pairs(pair_views(pairs@)),
{
    url::form_urlencoded::Serializer::new(String::new()).extend_pairs(
        pairs.iter().map(|(k, v)| (k.as_str(), v.as_str())),
    ).finish()
}

impl WebUrl {
    /// Parses a URL; `None` exactly when the parser refuses the text.
    pub fn parse(input: &str) -> (r: Option<WebUrl>)
        ensures
            match r {
                Some(u) => url_parses(input@) && u@ == input@,
                None => !url_parses(input@),
            },
    {
        match parse_url(input) {
            Some(inner) => Some(WebUrl { inner, text: Ghost(input@) }),
            None => None,
        }
    }

    /// The scheme.
    pub fn scheme(&self) -> (s: String)
        ensures
            s@ == url_scheme(self@),
    {
        scheme_of(self)
    }

    /// The host, if any.
    pub fn host_str(&self) -> (h: Option<String>)
        ensures
            match h {
                Some(h) => url_host_str(self@) == Some(h@),
                None => url_host_str(self@) is None,
            },
    {
        host_str_of(self)
    }

    /// The explicit port, unless it is the scheme's default.
    pub fn port(&self) -> (p: Option<u16>)
        ensures
            p == url_port(self@),
    {
        port_of(self)
    }

    /// The path.
    pub fn path(&self) -> (p: String)
        ensures
            p@ == url_path(self@),
    {
        path_of(self)
    }

    /// The query, if any.
    pub fn query(&self) -> (q: Option<String>)
        ensures
            match q {
                Some(q) => url_query(self@) == Some(q@),
                None => url_query(self@) is None,
            },
    {
        query_of(self)
    }

    /// The fragment, if any.
    pub fn fragment(&self) -> (f: Option<String>)
        ensures
            match f {
                Some(f) => url_fragment(self@) == Some(f@),
                None => url_fragment(self@) is None,
            },
    {
        fragment_of(self)
    }

    /// The serialization.
    pub fn as_string(&self) -> (s: String)
        ensures
            s@ == url_serialization(self@),
    {
        serialization_of(self)
    }

    /// The decoded query pairs, in order.
    pub fn query_pairs(&self) -> (p: Vec<(String, String)>)
        ensures
            pair_views(p@) == url_query_pairs(self@),
    {
        query_pairs_of(self)
    }
}

/// The form-urlencoded serialization of the pairs, in order.
pub fn form_urlencoded(pairs: &Vec<(String, String)>) -> (s: String)
    ensures
        s@ == form_urlencoded_pairs(pair_views(pairs@)),
{
    form_urlencode(pairs)
}

} // verus!
