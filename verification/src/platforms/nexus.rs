//! Resolves `nxm://` download links into real file URLs via the Nexus Mods
//! API.
//!
//! Nexus Mods' "Mod Manager Download" buttons produce links shaped like
//! `nxm://{game_domain}/mods/{mod_id}/files/{file_id}?key={key}&expires={expires}&user_id={user_id}`
//! — the same link format Vortex and Mod Organizer 2 register themselves as
//! the OS handler for. Given a personal Nexus API key, such a link becomes a
//! real download URL through the documented Nexus Mods API:
//! `GET /v1/games/{domain}/mods/{id}/files/{file}/download_link.json`.
//! For non-Premium accounts this endpoint requires the `key`/`expires` query
//! parameters that came from the nxm link itself; Premium accounts work
//! without them.

use vstd::prelude::*;

use crate::http_client::{headers_view, is_success, HttpClient, HttpResponse};
use crate::json::{element, field, string_of, JsonValue};
use crate::text::{concat, concat3, is_blank, is_blank_spec, str_equal};
use crate::urls::{
    build_url_with_path, build_url_with_path_and_query, pairs_size, pairs_view, parse_url,
    url_parse, url_with_path, url_with_path_and_query, SpecUrl, UrlParts,
};

verus! {

/// The Nexus Mods API's address.
pub const API_BASE: &'static str = "https://api.nexusmods.com";

/// The parts of an `nxm://` link.
#[derive(Debug, Clone, PartialEq)]
pub struct NxmLink {
    pub game_domain: String,
    pub mod_id: String,
    pub file_id: String,
    pub key: Option<String>,
    pub expires: Option<String>,
}

/// The mathematical value of an [`NxmLink`].
pub struct SpecNxmLink {
    pub game_domain: Seq<char>,
    pub mod_id: Seq<char>,
    pub file_id: Seq<char>,
    pub key: Option<Seq<char>>,
    pub expires: Option<Seq<char>>,
}

pub open spec fn opt_view(o: Option<String>) -> Option<Seq<char>> {
    match o {
        Some(s) => Some(s@),
        None => None,
    }
}

impl View for NxmLink {
    type V = SpecNxmLink;

    open spec fn view(&self) -> SpecNxmLink {
        SpecNxmLink {
            game_domain: self.game_domain@,
            mod_id: self.mod_id@,
            file_id: self.file_id@,
            key: opt_view(self.key),
            expires: opt_view(self.expires),
        }
    }
}

/// Why a link could not be resolved.
#[derive(Debug, PartialEq)]
pub enum NexusError {
    MissingApiKey,
    InvalidLink(String),
    Request(String, String),
    Api(String),
    Parse(String),
    NoMirrors,
}

/// The mathematical value of a [`NexusError`].
pub enum SpecNexusError {
    MissingApiKey,
    InvalidLink(Seq<char>),
    Request(Seq<char>, Seq<char>),
    Api(Seq<char>),
    Parse(Seq<char>),
    NoMirrors,
}

impl View for NexusError {
    type V = SpecNexusError;

    open spec fn view(&self) -> SpecNexusError {
        match self {
            NexusError::MissingApiKey => SpecNexusError::MissingApiKey,
            NexusError::InvalidLink(m) => SpecNexusError::InvalidLink(m@),
            NexusError::Request(u, m) => SpecNexusError::Request(u@, m@),
            NexusError::Api(m) => SpecNexusError::Api(m@),
            NexusError::Parse(m) => SpecNexusError::Parse(m@),
            NexusError::NoMirrors => SpecNexusError::NoMirrors,
        }
    }
}

impl SpecNexusError {
    pub open spec fn message_spec(self) -> Seq<char> {
        match self {
            SpecNexusError::MissingApiKey => "no Nexus Mods API key configured"@,
            SpecNexusError::InvalidLink(m) => "not a valid nxm:// link: "@ + m,
            SpecNexusError::Request(u, m) => "request to "@ + u + " failed: "@ + m,
            SpecNexusError::Api(m) => "Nexus Mods returned an error: "@ + m,
            SpecNexusError::Parse(m) => "could not parse Nexus Mods response: "@ + m,
            SpecNexusError::NoMirrors => "Nexus Mods returned no download mirrors for this file"@,
        }
    }
}

impl NexusError {
    /// The human-readable description of the error.
    pub fn message(&self) -> (r: String)
        ensures
            r@ == self@.message_spec(),
    {
        match self {
            NexusError::MissingApiKey => "no Nexus Mods API key configured".to_owned(),
            NexusError::InvalidLink(m) => concat("not a valid nxm:// link: ", m.as_str()),
            NexusError::Request(u, m) => {
                let mut s = concat3("request to ", u.as_str(), " failed: ");
                s.append(m.as_str());
                s
            },
            NexusError::Api(m) => concat("Nexus Mods returned an error: ", m.as_str()),
            NexusError::Parse(m) => concat("could not parse Nexus Mods response: ", m.as_str()),
            NexusError::NoMirrors => "Nexus Mods returned no download mirrors for this file".to_owned(),
        }
    }
}

/// The value of the last query pair named `name`.
pub open spec fn last_query_value(q: Seq<(Seq<char>, Seq<char>)>, name: Seq<char>) -> Option<
    Seq<char>,
>
    decreases q.len(),
{
    if q.len() == 0 {
        None
    } else if q.last().0 == name {
        Some(q.last().1)
    } else {
        last_query_value(q.drop_last(), name)
    }
}

/// What a parsed URL makes of an `nxm://` link, or why it is not one (the
/// text carried by `NexusError::InvalidLink`): scheme `nxm`, the game domain
/// as host, the path `/mods/<id>/files/<id>`, and the last `key` and
/// `expires` of the query.
pub open spec fn nxm_link_from(u: SpecUrl) -> Result<SpecNxmLink, Seq<char>> {
    if u.scheme != "nxm"@ {
        Err("expected an nxm:// link, got "@ + u.scheme + "://"@)
    } else {
        match u.host {
            None => Err("missing game domain"@),
            Some(h) => {
                let segs = match u.segments {
                    Some(s) => s,
                    None => Seq::empty(),
                };
                if segs.len() == 4 && segs[0] == "mods"@ && segs[2] == "files"@ {
                    Ok(
                        SpecNxmLink {
                            game_domain: h,
                            mod_id: segs[1],
                            file_id: segs[3],
                            key: last_query_value(u.query, "key"@),
                            expires: last_query_value(u.query, "expires"@),
                        },
                    )
                } else {
                    Err("expected /mods/<id>/files/<id>, got "@ + u.path)
                }
            },
        }
    }
}

/// What an `nxm://` link is made of, or why it is not one (the text carried
/// by `NexusError::InvalidLink`).
pub open spec fn nxm_link_spec(raw: Seq<char>) -> Result<SpecNxmLink, Seq<char>> {
    match url_parse(raw) {
        Err(e) => Err(e),
        Ok(u) => nxm_link_from(u),
    }
}

/// Reads an `nxm://` link out of its parsed URL.
pub fn nxm_link_from_parts(url: UrlParts) -> (r: Result<NxmLink, NexusError>)
    ensures
        match nxm_link_from(url@) {
            Ok(l) => r matches Ok(x) && x@ == l,
            Err(m) => r matches Err(e) && e@ == SpecNexusError::InvalidLink(m),
        },
{
    if !str_equal(url.scheme.as_str(), "nxm") {
        return Err(
            NexusError::InvalidLink(
                concat3("expected an nxm:// link, got ", url.scheme.as_str(), "://"),
            ),
        );
    }
    let game_domain = match &url.host {
        Some(h) => h.clone(),
        None => {
            return Err(NexusError::InvalidLink("missing game domain".to_owned()));
        },
    };
    let segments: Vec<String> = match url.segments {
        Some(s) => s,
        None => Vec::new(),
    };
    let ghost segs = crate::urls::strings_view(segments@);
    if !(segments.len() == 4 && str_equal(segments[0].as_str(), "mods") && str_equal(
        segments[2].as_str(),
        "files",
    )) {
        return Err(
            NexusError::InvalidLink(
                concat("expected /mods/<id>/files/<id>, got ", url.path.as_str()),
            ),
        );
    }
    let mod_id = segments[1].clone();
    let file_id = segments[3].clone();
    let mut key: Option<String> = None;
    let mut expires: Option<String> = None;
    let ghost q = pairs_view(url.query@);
    let mut i: usize = 0;
    while i < url.query.len()
        invariant
            i <= url.query@.len(),
            q == pairs_view(url.query@),
            opt_view(key) == last_query_value(q.take(i as int), "key"@),
            opt_view(expires) == last_query_value(q.take(i as int), "expires"@),
        decreases url.query.len() - i,
    {
        assert(q.take(i + 1).drop_last() =~= q.take(i as int));
        proof {
            reveal_strlit("key");
            reveal_strlit("expires");
        }
        let (k, v) = &url.query[i];
        assert(q.take(i + 1).last() == (k@, v@));
        assert("key"@.len() == 3 && "expires"@.len() == 7);
        if str_equal(k.as_str(), "key") {
            key = Some(v.clone());
        } else if str_equal(k.as_str(), "expires") {
            expires = Some(v.clone());
        }
        i = i + 1;
    }
    assert(q.take(url.query.len() as int) =~= q);
    Ok(NxmLink { game_domain, mod_id, file_id, key, expires })
}

/// Parses an `nxm://` URL as produced by Nexus Mods' "Mod Manager Download"
/// buttons into its component parts.
pub fn parse_nxm_url(raw: &str) -> (r: Result<NxmLink, NexusError>)
    ensures
        match nxm_link_spec(raw@) {
            Ok(l) => r matches Ok(x) && x@ == l,
            Err(m) => r matches Err(e) && e@ == SpecNexusError::InvalidLink(m),
        },
{
    match parse_url(raw) {
        Ok(u) => nxm_link_from_parts(u),
        Err(e) => Err(NexusError::InvalidLink(e)),
    }
}

/// The API path of a link's download-link endpoint.
pub open spec fn download_path(l: SpecNxmLink) -> Seq<char> {
    "/v1/games/"@ + l.game_domain + "/mods/"@ + l.mod_id + "/files/"@ + l.file_id
        + "/download_link.json"@
}

/// The query that authorises a non-Premium download: `key`, then `expires`,
/// each only when the link has it.
pub open spec fn download_query(l: SpecNxmLink) -> Seq<(Seq<char>, Seq<char>)> {
    (match l.key {
        Some(k) => seq![("key"@, k)],
        None => Seq::empty(),
    }) + (match l.expires {
        Some(e) => seq![("expires"@, e)],
        None => Seq::empty(),
    })
}

/// The API URL that resolves a link, or the error that the API's own address
/// gave when parsed. The query is only touched when there is something to
/// add, so a Premium link's URL has no `?`.
pub open spec fn download_link_url_spec(l: SpecNxmLink) -> Result<Seq<char>, Seq<char>> {
    match url_parse(API_BASE@) {
        Err(e) => Err(e),
        Ok(_) => Ok(
            if download_query(l).len() == 0 {
                url_with_path(API_BASE@, download_path(l))
            } else {
                url_with_path_and_query(API_BASE@, download_path(l), download_query(l))
            },
        ),
    }
}

/// The total size, in characters, of a link's parts.
pub open spec fn link_size(l: SpecNxmLink) -> int {
    let k: int = match l.key {
        Some(k) => k.len() as int,
        None => 0,
    };
    let e: int = match l.expires {
        Some(e) => e.len() as int,
        None => 0,
    };
    l.game_domain.len() + l.mod_id.len() + l.file_id.len() + k + e
}

/// The largest link, in characters, that can be resolved.
pub open spec fn max_link_size() -> int {
    299_999_000
}

/// The Nexus Mods API URL that resolves `link`, or the error the API's own
/// address gave when parsed.
pub fn download_link_url(link: &NxmLink) -> (r: Result<String, String>)
    requires
        link_size(link@) <= max_link_size(),
    ensures
        match download_link_url_spec(link@) {
            Ok(u) => r matches Ok(x) && x@ == u,
            Err(e) => r matches Err(x) && x@ == e,
        },
{
    let mut path = concat3("/v1/games/", link.game_domain.as_str(), "/mods/");
    path.append(link.mod_id.as_str());
    path.append("/files/");
    path.append(link.file_id.as_str());
    path.append("/download_link.json");
    assert(path@ =~= download_path(link@));
    let mut query: Vec<(String, String)> = Vec::new();
    if let Some(key) = &link.key {
        query.push(("key".to_owned(), key.clone()));
    }
    if let Some(expires) = &link.expires {
        query.push(("expires".to_owned(), expires.clone()));
    }
    assert(pairs_view(query@) =~= download_query(link@));
    proof {
        reveal_with_fuel(pairs_size, 3);
        reveal_strlit("https://api.nexusmods.com");
        reveal_strlit("key");
        reveal_strlit("expires");
        reveal_strlit("/v1/games/");
        reveal_strlit("/mods/");
        reveal_strlit("/files/");
        reveal_strlit("/download_link.json");
    }
    if query.len() == 0 {
        build_url_with_path(API_BASE, path.as_str())
    } else {
        build_url_with_path_and_query(API_BASE, path.as_str(), &query)
    }
}

/// The text of an API error: the body's `message` string, or
/// `"unknown error"`.
pub open spec fn error_message_spec(body: JsonValue) -> Seq<char> {
    match string_of(field(body, "message"@)) {
        Some(m) => m,
        None => "unknown error"@,
    }
}

fn extract_error_message(body: &JsonValue) -> (r: String)
    ensures
        r@ == error_message_spec(*body),
{
    match body.get("message") {
        Some(v) => match v.as_str() {
            Some(m) => m.to_owned(),
            None => "unknown error".to_owned(),
        },
        None => "unknown error".to_owned(),
    }
}

/// A mirror's `URI` field: it must be there and be a string.
pub open spec fn uri_field(f: Option<JsonValue>) -> Result<Seq<char>, Seq<char>> {
    match f {
        None => Err("missing field `URI`"@),
        Some(JsonValue::Str(s)) => Ok(s@),
        Some(_) => Err("invalid type: expected a string for `URI`"@),
    }
}

/// The download URL of one mirror entry: a record whose `URI` is a string,
/// given as an object or as an array of that one field.
pub open spec fn mirror_uri(v: JsonValue) -> Result<Seq<char>, Seq<char>> {
    match v {
        JsonValue::Object(_) => uri_field(field(v, "URI"@)),
        JsonValue::Array(a) => if a@.len() == 0 {
            Err("invalid length 0, expected struct DownloadMirror with 1 element"@)
        } else if a@.len() > 1 {
            Err("invalid length, expected fewer elements in array"@)
        } else {
            uri_field(element(v, 0))
        },
        _ => Err("invalid type: expected struct DownloadMirror"@),
    }
}

/// The URIs of the mirror entries `items[i..]`, or the first entry's error.
pub open spec fn mirror_uris_from(items: Seq<JsonValue>, i: int) -> Result<Seq<Seq<char>>, Seq<char>>
    decreases items.len() - i,
{
    if i < 0 || i >= items.len() {
        Ok(Seq::empty())
    } else {
        match mirror_uri(items[i]) {
            Err(e) => Err(e),
            Ok(u) => match mirror_uris_from(items, i + 1) {
                Err(e) => Err(e),
                Ok(rest) => Ok(seq![u] + rest),
            },
        }
    }
}

/// The mirror list in a successful response: an array of mirror entries.
pub open spec fn mirrors_spec(body: JsonValue) -> Result<Seq<Seq<char>>, Seq<char>> {
    match body {
        JsonValue::Array(items) => mirror_uris_from(items@, 0),
        _ => Err("invalid type: expected a sequence of download mirrors"@),
    }
}

fn read_uri_field(f: Option<&JsonValue>) -> (r: Result<String, String>)
    ensures
        match uri_field(
            match f {
                Some(x) => Some(*x),
                None => None,
            },
        ) {
            Ok(u) => r matches Ok(x) && x@ == u,
            Err(e) => r matches Err(x) && x@ == e,
        },
{
    match f {
        None => Err("missing field `URI`".to_owned()),
        Some(JsonValue::Str(s)) => Ok(s.clone()),
        Some(_) => Err("invalid type: expected a string for `URI`".to_owned()),
    }
}

fn read_mirror_uri(v: &JsonValue) -> (r: Result<String, String>)
    ensures
        match mirror_uri(*v) {
            Ok(u) => r matches Ok(x) && x@ == u,
            Err(e) => r matches Err(x) && x@ == e,
        },
{
    match v {
        JsonValue::Object(_) => read_uri_field(v.get("URI")),
        JsonValue::Array(a) => {
            if a.len() == 0 {
                Err("invalid length 0, expected struct DownloadMirror with 1 element".to_owned())
            } else if a.len() > 1 {
                Err("invalid length, expected fewer elements in array".to_owned())
            } else {
                read_uri_field(v.at(0))
            }
        },
        _ => Err("invalid type: expected struct DownloadMirror".to_owned()),
    }
}

/// `acc` put in front of the URIs that `r` found.
pub open spec fn prepend_uris(acc: Seq<Seq<char>>, r: Result<Seq<Seq<char>>, Seq<char>>) -> Result<
    Seq<Seq<char>>,
    Seq<char>,
> {
    match r {
        Ok(rest) => Ok(acc + rest),
        Err(e) => Err(e),
    }
}

fn download_mirrors(body: &JsonValue) -> (r: Result<Vec<String>, String>)
    ensures
        match mirrors_spec(*body) {
            Ok(us) => r matches Ok(x) && crate::urls::strings_view(x@) == us,
            Err(e) => r matches Err(x) && x@ == e,
        },
{
    let items = match body.as_array() {
        Some(a) => a,
        None => {
            return Err("invalid type: expected a sequence of download mirrors".to_owned());
        },
    };
    let mut out: Vec<String> = Vec::new();
    let mut i: usize = 0;
    assert(crate::urls::strings_view(out@) + Seq::<Seq<char>>::empty() =~= crate::urls::strings_view(out@));
    while i < items.len()
        invariant
            i <= items@.len(),
            mirrors_spec(*body) == prepend_uris(
                crate::urls::strings_view(out@),
                mirror_uris_from(items@, i as int),
            ),
            *body == JsonValue::Array(*items),
        decreases items.len() - i,
    {
        match read_mirror_uri(&items[i]) {
            Err(e) => {
                return Err(e);
            },
            Ok(u) => {
                let ghost before = crate::urls::strings_view(out@);
                let ghost uv = u@;
                out.push(u);
                proof {
                    assert(crate::urls::strings_view(out@) =~= before.push(uv));
                    if let Ok(rest) = mirror_uris_from(items@, i + 1) {
                        assert(before + (seq![uv] + rest) =~= before.push(uv) + rest);
                    }
                }
            },
        }
        i = i + 1;
    }
    assert(crate::urls::strings_view(out@) + Seq::<Seq<char>>::empty() =~= crate::urls::strings_view(out@));
    Ok(out)
}

/// What a response to the download-link request at `url` means: a transport
/// failure, an API error, an unreadable body, no mirrors, or the first
/// mirror's URI.
pub open spec fn response_outcome(url: Seq<char>, resp: Result<HttpResponse, String>) -> Result<
    Seq<char>,
    SpecNexusError,
> {
    match resp {
        Err(e) => Err(SpecNexusError::Request(url, e@)),
        Ok(r) => if !is_success(r.status) {
            Err(SpecNexusError::Api(error_message_spec(r.body)))
        } else {
            match mirrors_spec(r.body) {
                Err(m) => Err(SpecNexusError::Parse(m)),
                Ok(us) => if us.len() == 0 {
                    Err(SpecNexusError::NoMirrors)
                } else {
                    Ok(us[0])
                },
            }
        },
    }
}

/// Interprets the API's answer to the download-link request at `url`:
/// returns the first CDN mirror it offers.
pub fn interpret_download_response(url: &str, resp: Result<HttpResponse, String>) -> (r: Result<
    String,
    NexusError,
>)
    ensures
        match response_outcome(url@, resp) {
            Ok(u) => r matches Ok(x) && x@ == u,
            Err(e) => r matches Err(x) && x@ == e,
        },
{
    let resp = match resp {
        Ok(r) => r,
        Err(e) => {
            return Err(NexusError::Request(url.to_owned(), e));
        },
    };
    if !(200 <= resp.status && resp.status < 300) {
        return Err(NexusError::Api(extract_error_message(&resp.body)));
    }
    match download_mirrors(&resp.body) {
        Err(m) => Err(NexusError::Parse(m)),
        Ok(mirrors) => {
            if mirrors.len() == 0 {
                Err(NexusError::NoMirrors)
            } else {
                Ok(mirrors[0].clone())
            }
        },
    }
}

/// The header that authenticates a Nexus Mods API request: the user's key
/// under the name `apikey`.
pub fn api_key_header(api_key: &str) -> (r: (&'static str, &str))
    ensures
        r.0@ == "apikey"@,
        r.1@ == api_key@,
{
    ("apikey", api_key)
}

/// The headers of a Nexus Mods API request made with `api_key`.
pub open spec fn nexus_headers(api_key: Seq<char>) -> Seq<(Seq<char>, Seq<char>)> {
    seq![("apikey"@, api_key)]
}

/// Resolves an `nxm://` link into a real, downloadable file URL by calling
/// the Nexus Mods API with the `apikey` header. Returns the first CDN mirror
/// it's offered.
pub fn resolve_download_url<C: HttpClient>(client: &C, api_key: &str, link: &NxmLink) -> (r: Result<
    String,
    NexusError,
>)
    requires
        link_size(link@) <= max_link_size(),
    ensures
        is_blank_spec(api_key@) ==> (r matches Err(e) && e@ == SpecNexusError::MissingApiKey),
        !is_blank_spec(api_key@) ==> match download_link_url_spec(link@) {
            Err(m) => r matches Err(e) && e@ == SpecNexusError::Request(API_BASE@, m),
            Ok(u) => exists|resp: Result<HttpResponse, String>|
                client.answers(u, nexus_headers(api_key@), resp) && match #[trigger] response_outcome(
                    u,
                    resp,
                ) {
                    Ok(x) => r matches Ok(y) && y@ == x,
                    Err(x) => r matches Err(y) && y@ == x,
                },
        },
{
    if is_blank(api_key) {
        return Err(NexusError::MissingApiKey);
    }
    let url = match download_link_url(link) {
        Ok(u) => u,
        Err(m) => {
            return Err(NexusError::Request(API_BASE.to_owned(), m));
        },
    };
    let headers = [api_key_header(api_key)];
    assert(headers_view(headers@) =~= nexus_headers(api_key@));
    let resp = client.get_json(url.as_str(), &headers);
    let ghost resp_ghost = resp;
    let r = interpret_download_response(url.as_str(), resp);
    assert(match response_outcome(url@, resp_ghost) {
        Ok(x) => r matches Ok(y) && y@ == x,
        Err(x) => r matches Err(y) && y@ == x,
    });
    r
}

/// A Premium link, which carries neither `key` nor `expires`, is resolved
/// through a URL whose query is left untouched; a link that carries either
/// has both of its values appended, `key` first.
pub proof fn lemma_premium_links_add_no_query(l: SpecNxmLink)
    ensures
        l.key is None && l.expires is None ==> download_query(l).len() == 0 && (
        download_link_url_spec(l) matches Ok(u) ==> u == url_with_path(API_BASE@, download_path(l))),
        l.key matches Some(k) ==> download_query(l)[0] == ("key"@, k),
        l.expires matches Some(e) ==> download_query(l).last() == ("expires"@, e),
{
}

} // verus!
