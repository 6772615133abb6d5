//! URLs, as far as the launcher reads and builds them. Parsing and
//! serialising URLs is the `url` crate's work; what the library reads of a
//! parsed URL is held here as plain strings.

use vstd::prelude::*;

verus! {

/// The parts of a parsed URL that the launcher reads.
#[derive(Debug, PartialEq)]
pub struct UrlParts {
    /// The scheme, lower-cased, without the `:`.
    pub scheme: String,
    /// The host, when the URL has one.
    pub host: Option<String>,
    /// The path, percent-encoded.
    pub path: String,
    /// The `/`-separated path segments, or `None` for a cannot-be-a-base URL.
    pub segments: Option<Vec<String>>,
    /// The decoded `name=value` pairs of the query, in order.
    pub query: Vec<(String, String)>,
}

/// The mathematical value of [`UrlParts`].
pub struct SpecUrl {
    pub scheme: Seq<char>,
    pub host: Option<Seq<char>>,
    pub path: Seq<char>,
    pub segments: Option<Seq<Seq<char>>>,
    pub query: Seq<(Seq<char>, Seq<char>)>,
}

/// The view of a list of strings.
pub open spec fn strings_view(v: Seq<String>) -> Seq<Seq<char>> {
    v.map_values(|s: String| s@)
}

/// The view of a list of string pairs.
pub open spec fn pairs_view(v: Seq<(String, String)>) -> Seq<(Seq<char>, Seq<char>)> {
    v.map_values(|p: (String, String)| (p.0@, p.1@))
}

impl View for UrlParts {
    type V = SpecUrl;

    open spec fn view(&self) -> SpecUrl {
        SpecUrl {
            scheme: self.scheme@,
            host: match self.host {
                Some(h) => Some(h@),
                None => None,
            },
            path: self.path@,
            segments: match self.segments {
                Some(s) => Some(strings_view(s@)),
                None => None,
            },
            query: pairs_view(self.query@),
        }
    }
}

/// What `url::Url::parse` makes of `raw`: the URL's parts, or the text of
/// the parse error.
pub uninterp spec fn url_parse(raw: Seq<char>) -> Result<SpecUrl, Seq<char>>;

/// The serialisation of the URL `base` once its path is set to `path`
/// (`url::Url::set_path`), when `base` parses.
pub uninterp spec fn url_with_path(base: Seq<char>, path: Seq<char>) -> Seq<char>;

/// The serialisation of the URL `base` once its path is set to `path` and
/// `query` is appended to its query (`url::Url::query_pairs_mut`), when `base`
/// parses.
pub uninterp spec fn url_with_path_and_query(
    base: Seq<char>,
    path: Seq<char>,
    query: Seq<(Seq<char>, Seq<char>)>,
) -> Seq<char>;

/// Parses `raw` as an absolute URL.
///
/// Trusted: `url::Url::parse`, then the accessors `scheme`, `host_str`,
/// `path`, `path_segments` and `query_pairs` of the parsed URL. The contract
/// claims only that the outcome is a function of `raw` (named `url_parse`);
/// it does not restate the URL standard.
#[verifier::external_body]
pub(crate) fn parse_url(raw: &str) -> (r: Result<UrlParts, String>)
    ensures
        match r {
            Ok(p) => url_parse(raw@) == Ok::<SpecUrl, Seq<char>>(p@),
            Err(e) => url_parse(raw@) == Err::<SpecUrl, Seq<char>>(e@),
        },
{
    match url::Url::parse(raw) {
        Ok(u) => Ok(UrlParts {
            scheme: u.scheme().to_string(),
            host: u.host_str().map(|h| h.to_string()),
            path: u.path().to_string(),
            segments: u.path_segments().map(|s| s.map(|x| x.to_string()).collect()),
            query: u.query_pairs().map(|(k, v)| (k.into_owned(), v.into_owned())).collect(),
        }),
        Err(e) => Err(e.to_string()),
    }
}

/// The largest input, in characters, for which the URL builders are used:
/// the `url` crate panics on URLs of 4 GiB or more, and a character takes
/// at most twelve bytes once UTF-8 encoded and percent-encoded.
pub open spec fn url_build_bound() -> int {
    300_000_000
}

/// Sets the path of the URL `base` and serialises it.
///
/// Trusted: `url::Url::parse` on `base`, `url::Url::set_path`, and the URL's
/// serialisation. The contract claims that the error, if any, is the one
/// `url_parse` names for `base`, and that otherwise the result is a function
/// of `base` and `path` (named `url_with_path`).
#[verifier::external_body]
pub(crate) fn build_url_with_path(base: &str, path: &str) -> (r: Result<String, String>)
    requires
        base@.len() + path@.len() <= url_build_bound(),
    ensures
        match url_parse(base@) {
            Ok(_) => r matches Ok(s) && s@ == url_with_path(base@, path@),
            Err(e) => r matches Err(m) && m@ == e,
        },
{
    let mut u = url::Url::parse(base).map_err(|e| e.to_string())?;
    u.set_path(path);
    Ok(u.to_string())
}

/// Sets the path of the URL `base`, appends `query` to its query string, and
/// serialises it.
///
/// Trusted: `url::Url::parse` on `base`, `url::Url::set_path`,
/// `url::Url::query_pairs_mut` with `extend_pairs`, and the URL's
/// serialisation. The contract claims that the error, if any, is the one
/// `url_parse` names for `base`, and that otherwise the result is a function
/// of `base`, `path` and `query` (named `url_with_path_and_query`).
#[verifier::external_body]
pub(crate) fn build_url_with_path_and_query(
    base: &str,
    path: &str,
    query: &Vec<(String, String)>,
) -> (r: Result<String, String>)
    requires
        base@.len() + path@.len() + pairs_size(pairs_view(query@)) <= url_build_bound(),
    ensures
        match url_parse(base@) {
            Ok(_) => r matches Ok(s) && s@ == url_with_path_and_query(
                base@,
                path@,
                pairs_view(query@),
            ),
            Err(e) => r matches Err(m) && m@ == e,
        },
{
    let mut u = url::Url::parse(base).map_err(|e| e.to_string())?;
    u.set_path(path);
    u.query_pairs_mut().extend_pairs(query.iter());
    Ok(u.to_string())
}

/// The number of characters in the names and values of `pairs`.
pub open spec fn pairs_size(pairs: Seq<(Seq<char>, Seq<char>)>) -> int
    decreases pairs.len(),
{
    if pairs.len() == 0 {
        0
    } else {
        pairs_size(pairs.drop_last()) + pairs.last().0.len() + pairs.last().1.len()
    }
}

} // verus!
