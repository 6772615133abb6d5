//! itch.io library integration via itch.io's documented server-side API
//! (<https://itch.io/docs/api/serverside>), with a personal API key the user
//! generates themselves.
//!
//! `GET https://api.itch.io/profile/owned-keys` returns every "download key"
//! for games the authenticated user owns, paginated.

use vstd::prelude::*;

use crate::http_client::{headers_view, is_success, HttpClient, HttpResponse};
use crate::json::{element, field, optional_string, read_optional_string, JsonValue};
use crate::models::{
    add_unique_games, games_view, ids_unique, lemma_merge_unique_keeps_ids_unique, merge_unique,
    Game, Platform, SpecGame,
};
use crate::text::{concat, concat3, decimal, decimal_string, is_blank, is_blank_spec, signed_decimal,
    signed_decimal_string};

verus! {

/// The itch.io API's address.
pub const API_BASE: &'static str = "https://api.itch.io";

/// itch.io's default/observed page size for the owned-keys endpoint: a page
/// with fewer entries is the last one.
pub const PER_PAGE_HINT: usize = 5;

/// The most pages read, a safety valve against runaway pagination from an
/// unexpected API shape.
pub const MAX_PAGES: u64 = 200;

/// Why the owned games could not be fetched.
#[derive(Debug, PartialEq)]
pub enum ItchIoError {
    MissingApiKey,
    Request(String, String),
    Api(String),
    Parse(String),
}

/// The mathematical value of an [`ItchIoError`].
pub enum SpecItchIoError {
    MissingApiKey,
    Request(Seq<char>, Seq<char>),
    Api(Seq<char>),
    Parse(Seq<char>),
}

impl View for ItchIoError {
    type V = SpecItchIoError;

    open spec fn view(&self) -> SpecItchIoError {
        match self {
            ItchIoError::MissingApiKey => SpecItchIoError::MissingApiKey,
            ItchIoError::Request(u, m) => SpecItchIoError::Request(u@, m@),
            ItchIoError::Api(m) => SpecItchIoError::Api(m@),
            ItchIoError::Parse(m) => SpecItchIoError::Parse(m@),
        }
    }
}

impl SpecItchIoError {
    pub open spec fn message_spec(self) -> Seq<char> {
        match self {
            SpecItchIoError::MissingApiKey => "no itch.io API key configured"@,
            SpecItchIoError::Request(u, m) => "request to "@ + u + " failed: "@ + m,
            SpecItchIoError::Api(m) => "itch.io returned an error: "@ + m,
            SpecItchIoError::Parse(m) => "could not parse itch.io response: "@ + m,
        }
    }
}

impl ItchIoError {
    /// The human-readable description of the error.
    pub fn message(&self) -> (r: String)
        ensures
            r@ == self@.message_spec(),
    {
        match self {
            ItchIoError::MissingApiKey => "no itch.io API key configured".to_owned(),
            ItchIoError::Request(u, m) => {
                let mut s = concat3("request to ", u.as_str(), " failed: ");
                s.append(m.as_str());
                s
            },
            ItchIoError::Api(m) => concat("itch.io returned an error: ", m.as_str()),
            ItchIoError::Parse(m) => concat("could not parse itch.io response: ", m.as_str()),
        }
    }
}

/// The text of an API error: the first entry of the body's `errors` array
/// when it is a string, else `"unknown error"`.
pub open spec fn error_message_spec(body: JsonValue) -> Seq<char> {
    match field(body, "errors"@) {
        Some(JsonValue::Array(a)) => if a@.len() > 0 {
            match a@[0] {
                JsonValue::Str(s) => s@,
                _ => "unknown error"@,
            }
        } else {
            "unknown error"@
        },
        _ => "unknown error"@,
    }
}

fn extract_error_message(body: &JsonValue) -> (r: String)
    ensures
        r@ == error_message_spec(*body),
{
    if let Some(JsonValue::Array(a)) = body.get("errors") {
        if a.len() > 0 {
            if let JsonValue::Str(s) = &a[0] {
                return s.clone();
            }
        }
    }
    "unknown error".to_owned()
}

/// The game that an itch.io game record's fields describe: `id` (an `i64`),
/// `title` (a string), and the optional `cover_url` and `url`. The store
/// URL is kept as the install path so the UI can link out; itch.io entries
/// are owned, not necessarily downloaded.
pub open spec fn game_from_fields(
    id: Option<JsonValue>,
    title: Option<JsonValue>,
    cover_url: Option<JsonValue>,
    url: Option<JsonValue>,
) -> Result<SpecGame, Seq<char>> {
    match id {
        None => Err("missing field `id`"@),
        Some(JsonValue::Int(n)) => if i64::MIN <= n <= i64::MAX {
            match title {
                None => Err("missing field `title`"@),
                Some(JsonValue::Str(t)) => match optional_string(cover_url) {
                    Err(_) => Err("invalid type: expected a string for `cover_url`"@),
                    Ok(cover) => match optional_string(url) {
                        Err(_) => Err("invalid type: expected a string for `url`"@),
                        Ok(u) => Ok(
                            SpecGame {
                                id: crate::models::game_id(Platform::Itchio, signed_decimal(n as int)),
                                name: t@,
                                platform: Platform::Itchio,
                                install_path: u,
                                cover_url: cover,
                                installed: false,
                            },
                        ),
                    },
                },
                Some(_) => Err("invalid type: expected a string for `title`"@),
            }
        } else {
            Err("invalid value: expected i64 for `id`"@)
        },
        Some(_) => Err("invalid type: expected i64 for `id`"@),
    }
}

/// The game an itch.io game record describes: an object with those members,
/// or an array of `id`, `title` and then, optionally, `cover_url` and `url`.
pub open spec fn itch_game_spec(g: JsonValue) -> Result<SpecGame, Seq<char>> {
    match g {
        JsonValue::Object(_) => game_from_fields(
            field(g, "id"@),
            field(g, "title"@),
            field(g, "cover_url"@),
            field(g, "url"@),
        ),
        JsonValue::Array(a) => if a@.len() < 2 {
            Err("invalid length, expected struct ItchGame with 4 elements"@)
        } else if a@.len() > 4 {
            Err("invalid length, expected fewer elements in array"@)
        } else {
            game_from_fields(element(g, 0), element(g, 1), element(g, 2), element(g, 3))
        },
        _ => Err("invalid type: expected struct ItchGame"@),
    }
}

/// The game an owned-key entry describes: `{"game": {...}}`, or the same
/// record as an array of its one field.
pub open spec fn owned_game_spec(v: JsonValue) -> Result<SpecGame, Seq<char>> {
    match v {
        JsonValue::Object(_) => match field(v, "game"@) {
            None => Err("missing field `game`"@),
            Some(g) => itch_game_spec(g),
        },
        JsonValue::Array(a) => if a@.len() == 0 {
            Err("invalid length 0, expected struct OwnedKey with 1 element"@)
        } else if a@.len() > 1 {
            Err("invalid length, expected fewer elements in array"@)
        } else {
            itch_game_spec(a@[0])
        },
        _ => Err("invalid type: expected struct OwnedKey"@),
    }
}

fn read_game_fields(
    id: Option<&JsonValue>,
    title: Option<&JsonValue>,
    cover_url: Option<&JsonValue>,
    url: Option<&JsonValue>,
) -> (r: Result<Game, String>)
    ensures
        match game_from_fields(
            match id {
                Some(x) => Some(*x),
                None => None,
            },
            match title {
                Some(x) => Some(*x),
                None => None,
            },
            match cover_url {
                Some(x) => Some(*x),
                None => None,
            },
            match url {
                Some(x) => Some(*x),
                None => None,
            },
        ) {
            Ok(g) => r matches Ok(x) && x@ == g,
            Err(e) => r matches Err(x) && x@ == e,
        },
{
    let id: i128 = match id {
        None => {
            return Err("missing field `id`".to_owned());
        },
        Some(JsonValue::Int(n)) => *n,
        Some(_) => {
            return Err("invalid type: expected i64 for `id`".to_owned());
        },
    };
    if id < i64::MIN as i128 || id > i64::MAX as i128 {
        return Err("invalid value: expected i64 for `id`".to_owned());
    }
    let title = match title {
        None => {
            return Err("missing field `title`".to_owned());
        },
        Some(JsonValue::Str(t)) => t.clone(),
        Some(_) => {
            return Err("invalid type: expected a string for `title`".to_owned());
        },
    };
    let cover = match read_optional_string(cover_url) {
        Err(_) => {
            return Err("invalid type: expected a string for `cover_url`".to_owned());
        },
        Ok(c) => c,
    };
    let url = match read_optional_string(url) {
        Err(_) => {
            return Err("invalid type: expected a string for `url`".to_owned());
        },
        Ok(u) => u,
    };
    let mut game = Game::new(Platform::Itchio, signed_decimal_string(id), title);
    game.installed = false;
    if let Some(c) = cover {
        game = game.with_cover_url(c);
    }
    if let Some(u) = url {
        game.install_path = Some(u);
    }
    Ok(game)
}

fn itch_game(g: &JsonValue) -> (r: Result<Game, String>)
    ensures
        match itch_game_spec(*g) {
            Ok(x) => r matches Ok(y) && y@ == x,
            Err(e) => r matches Err(y) && y@ == e,
        },
{
    match g {
        JsonValue::Object(_) => read_game_fields(
            g.get("id"),
            g.get("title"),
            g.get("cover_url"),
            g.get("url"),
        ),
        JsonValue::Array(a) => {
            if a.len() < 2 {
                Err("invalid length, expected struct ItchGame with 4 elements".to_owned())
            } else if a.len() > 4 {
                Err("invalid length, expected fewer elements in array".to_owned())
            } else {
                read_game_fields(g.at(0), g.at(1), g.at(2), g.at(3))
            }
        },
        _ => Err("invalid type: expected struct ItchGame".to_owned()),
    }
}

fn owned_game(v: &JsonValue) -> (r: Result<Game, String>)
    ensures
        match owned_game_spec(*v) {
            Ok(g) => r matches Ok(x) && x@ == g,
            Err(e) => r matches Err(x) && x@ == e,
        },
{
    match v {
        JsonValue::Object(_) => match v.get("game") {
            None => Err("missing field `game`".to_owned()),
            Some(g) => itch_game(g),
        },
        JsonValue::Array(a) => {
            if a.len() == 0 {
                Err("invalid length 0, expected struct OwnedKey with 1 element".to_owned())
            } else if a.len() > 1 {
                Err("invalid length, expected fewer elements in array".to_owned())
            } else {
                itch_game(&a[0])
            }
        },
        _ => Err("invalid type: expected struct OwnedKey".to_owned()),
    }
}

/// The games of the owned-key entries `items[i..]`, or the first entry's
/// error.
pub open spec fn owned_games_from(items: Seq<JsonValue>, i: int) -> Result<Seq<SpecGame>, Seq<char>>
    decreases items.len() - i,
{
    if i < 0 || i >= items.len() {
        Ok(Seq::empty())
    } else {
        match owned_game_spec(items[i]) {
            Err(e) => Err(e),
            Ok(g) => match owned_games_from(items, i + 1) {
                Err(e) => Err(e),
                Ok(rest) => Ok(seq![g] + rest),
            },
        }
    }
}

/// The games listed on one page: `{"owned_keys": [...]}`, where a missing
/// `owned_keys` means an empty page.
pub open spec fn page_games_spec(body: JsonValue) -> Result<Seq<SpecGame>, Seq<char>> {
    match owned_keys_field(body) {
        Err(e) => Err(e),
        Ok(None) => Ok(Seq::empty()),
        Ok(Some(JsonValue::Array(items))) => owned_games_from(items@, 0),
        Ok(Some(_)) => Err("invalid type: expected a sequence for `owned_keys`"@),
    }
}

/// The `owned_keys` field of a page: a member of an object, or the one
/// element of an array (absent from an empty one); an error for anything
/// else.
pub open spec fn owned_keys_field(body: JsonValue) -> Result<Option<JsonValue>, Seq<char>> {
    match body {
        JsonValue::Object(_) => Ok(field(body, "owned_keys"@)),
        JsonValue::Array(a) => if a@.len() > 1 {
            Err("invalid length, expected fewer elements in array"@)
        } else {
            Ok(element(body, 0))
        },
        _ => Err("invalid type: expected struct OwnedKeysResponse"@),
    }
}

/// `acc` put in front of the games that `r` found.
pub open spec fn prepend_games(acc: Seq<SpecGame>, r: Result<Seq<SpecGame>, Seq<char>>) -> Result<
    Seq<SpecGame>,
    Seq<char>,
> {
    match r {
        Ok(rest) => Ok(acc + rest),
        Err(e) => Err(e),
    }
}

/// Reads the games listed on one page of owned keys, in order (duplicates
/// included).
pub fn page_games(body: &JsonValue) -> (r: Result<Vec<Game>, String>)
    ensures
        match page_games_spec(*body) {
            Ok(gs) => r matches Ok(x) && games_view(x@) == gs,
            Err(e) => r matches Err(x) && x@ == e,
        },
{
    let keys = match body {
        JsonValue::Object(_) => body.get("owned_keys"),
        JsonValue::Array(a) => {
            if a.len() > 1 {
                return Err("invalid length, expected fewer elements in array".to_owned());
            }
            body.at(0)
        },
        _ => {
            return Err("invalid type: expected struct OwnedKeysResponse".to_owned());
        },
    };
    let items = match keys {
        None => {
            let v: Vec<Game> = Vec::new();
            assert(games_view(v@) =~= Seq::<SpecGame>::empty());
            return Ok(v);
        },
        Some(JsonValue::Array(items)) => items,
        Some(_) => {
            return Err("invalid type: expected a sequence for `owned_keys`".to_owned());
        },
    };
    let mut out: Vec<Game> = Vec::new();
    assert(games_view(out@) + Seq::<SpecGame>::empty() =~= games_view(out@));
    let mut i: usize = 0;
    while i < items.len()
        invariant
            i <= items@.len(),
            page_games_spec(*body) == prepend_games(
                games_view(out@),
                owned_games_from(items@, i as int),
            ),
        decreases items.len() - i,
    {
        match owned_game(&items[i]) {
            Err(e) => {
                return Err(e);
            },
            Ok(g) => {
                let ghost before = games_view(out@);
                let ghost gv = g@;
                out.push(g);
                proof {
                    assert(games_view(out@) =~= before.push(gv));
                    if let Ok(rest) = owned_games_from(items@, i + 1) {
                        assert(before + (seq![gv] + rest) =~= before.push(gv) + rest);
                    }
                }
            },
        }
        i = i + 1;
    }
    assert(games_view(out@) + Seq::<SpecGame>::empty() =~= games_view(out@));
    Ok(out)
}

/// The URL of page `page` of the owned keys.
pub open spec fn page_url(page: nat) -> Seq<char> {
    API_BASE@ + "/profile/owned-keys?page="@ + decimal(page)
}

/// Builds the URL of page `page` of the owned keys.
pub fn owned_keys_url(page: u64) -> (r: String)
    ensures
        r@ == page_url(page as nat),
{
    let n = decimal_string(page as u128);
    concat3(API_BASE, "/profile/owned-keys?page=", n.as_str())
}

/// What a response to the request for `url` means: a transport failure, an
/// API error, an unreadable body, or the games listed on the page.
pub open spec fn page_outcome(url: Seq<char>, resp: Result<HttpResponse, String>) -> Result<
    Seq<SpecGame>,
    SpecItchIoError,
> {
    match resp {
        Err(e) => Err(SpecItchIoError::Request(url, e@)),
        Ok(r) => if !is_success(r.status) {
            Err(SpecItchIoError::Api(error_message_spec(r.body)))
        } else {
            match page_games_spec(r.body) {
                Err(m) => Err(SpecItchIoError::Parse(m)),
                Ok(gs) => Ok(gs),
            }
        },
    }
}

/// Interprets the response to the request for one page of owned keys.
pub fn interpret_page_response(url: &str, resp: Result<HttpResponse, String>) -> (r: Result<
    Vec<Game>,
    ItchIoError,
>)
    ensures
        match page_outcome(url@, resp) {
            Ok(gs) => r matches Ok(x) && games_view(x@) == gs,
            Err(e) => r matches Err(x) && x@ == e,
        },
{
    let resp = match resp {
        Ok(r) => r,
        Err(e) => {
            return Err(ItchIoError::Request(url.to_owned(), e));
        },
    };
    if !(200 <= resp.status && resp.status < 300) {
        return Err(ItchIoError::Api(extract_error_message(&resp.body)));
    }
    match page_games(&resp.body) {
        Err(m) => Err(ItchIoError::Parse(m)),
        Ok(gs) => Ok(gs),
    }
}

/// The mathematical value of a page's outcome.
pub open spec fn page_result_view(r: Result<Vec<Game>, ItchIoError>) -> Result<
    Seq<SpecGame>,
    SpecItchIoError,
> {
    match r {
        Ok(gs) => Ok(games_view(gs@)),
        Err(e) => Err(e@),
    }
}

/// Where pagination goes after one page: it stops with an error, finishes
/// with the games gathered, or goes on to the next page with them.
pub enum PageStep {
    Fail(ItchIoError),
    Finish(Vec<Game>),
    Next(Vec<Game>),
}

/// The mathematical value of a [`PageStep`].
pub enum SpecPageStep {
    Fail(SpecItchIoError),
    Finish(Seq<SpecGame>),
    Next(Seq<SpecGame>),
}

impl View for PageStep {
    type V = SpecPageStep;

    open spec fn view(&self) -> SpecPageStep {
        match self {
            PageStep::Fail(e) => SpecPageStep::Fail(e@),
            PageStep::Finish(gs) => SpecPageStep::Finish(games_view(gs@)),
            PageStep::Next(gs) => SpecPageStep::Next(games_view(gs@)),
        }
    }
}

/// One step of pagination, after page `page` came back as `outcome` with
/// `acc` gathered before it: an error ends it; otherwise the page's games are
/// merged in (the first game seen with an id is kept), and it finishes when
/// the page had fewer than `PER_PAGE_HINT` games or was page `MAX_PAGES` (or
/// later), else it goes on.
pub open spec fn page_step_spec(
    page: nat,
    acc: Seq<SpecGame>,
    outcome: Result<Seq<SpecGame>, SpecItchIoError>,
) -> SpecPageStep {
    match outcome {
        Err(e) => SpecPageStep::Fail(e),
        Ok(gs) => {
            let acc2 = merge_unique(acc, gs);
            if gs.len() < PER_PAGE_HINT || page >= MAX_PAGES {
                SpecPageStep::Finish(acc2)
            } else {
                SpecPageStep::Next(acc2)
            }
        },
    }
}

/// Takes one step of pagination: page `page` came back as `outcome`, and
/// `games` were gathered from the pages before it.
pub fn pagination_step(page: u64, games: Vec<Game>, outcome: Result<Vec<Game>, ItchIoError>) -> (r:
    PageStep)
    ensures
        r@ == page_step_spec(page as nat, games_view(games@), page_result_view(outcome)),
{
    match outcome {
        Err(e) => PageStep::Fail(e),
        Ok(found) => {
            let count = found.len();
            let mut games = games;
            add_unique_games(&mut games, found);
            if count < PER_PAGE_HINT || page >= MAX_PAGES {
                PageStep::Finish(games)
            } else {
                PageStep::Next(games)
            }
        },
    }
}

/// What the pagination makes of the responses `resps`, the first answering
/// the request for page `page`, with `acc` found so far: each response is
/// read as a page (`page_outcome`) and pagination takes its step
/// (`page_step_spec`) until it fails or finishes.
pub open spec fn fetch_pages(
    resps: Seq<Result<HttpResponse, String>>,
    page: nat,
    acc: Seq<SpecGame>,
) -> Result<Seq<SpecGame>, SpecItchIoError>
    decreases resps.len(),
{
    if resps.len() == 0 {
        Err(SpecItchIoError::Request(page_url(page), Seq::empty()))
    } else {
        match page_step_spec(page, acc, page_outcome(page_url(page), resps[0])) {
            SpecPageStep::Fail(e) => Err(e),
            SpecPageStep::Finish(gs) => Ok(gs),
            SpecPageStep::Next(gs) => fetch_pages(resps.drop_first(), page + 1, gs),
        }
    }
}

/// The headers of an itch.io API request made with `api_key`.
pub open spec fn itchio_headers(api_key: Seq<char>) -> Seq<(Seq<char>, Seq<char>)> {
    seq![("Authorization"@, "Bearer "@ + api_key)]
}

/// Whether `resps` are exactly the responses pagination reads from page
/// `page` on, with `acc` found before: it takes a step on each, and goes on
/// after every one but the last.
pub open spec fn reads_all(
    resps: Seq<Result<HttpResponse, String>>,
    page: nat,
    acc: Seq<SpecGame>,
) -> bool
    decreases resps.len(),
{
    resps.len() > 0 && match page_step_spec(page, acc, page_outcome(page_url(page), resps[0])) {
        SpecPageStep::Next(gs) => reads_all(resps.drop_first(), page + 1, gs),
        _ => resps.len() == 1,
    }
}

/// Whether `resps` are the answers `client` gave to a fetch with `api_key`:
/// exactly the responses pagination reads, the `k`-th answering the request
/// for page `k + 1` with the `Authorization: Bearer <key>` header.
pub open spec fn answered_pages<C: HttpClient>(
    client: &C,
    api_key: Seq<char>,
    resps: Seq<Result<HttpResponse, String>>,
) -> bool {
    &&& reads_all(resps, 1, Seq::empty())
    &&& forall|k: int|
        0 <= k < resps.len() ==> client.answers(
            page_url((k + 1) as nat),
            itchio_headers(api_key),
            #[trigger] resps[k],
        )
}

/// Fetches every game the authenticated user owns, following pagination until
/// a page comes back with fewer than `PER_PAGE_HINT` entries. Pages 1, 2, ...
/// are requested in turn, each from `page_url` with the `Authorization:
/// Bearer <key>` header; the result is what [`fetch_pages`] makes of the
/// client's answers, which are exactly the responses pagination reads.
pub fn fetch_owned_games<C: HttpClient>(client: &C, api_key: &str) -> (r: Result<
    Vec<Game>,
    ItchIoError,
>)
    ensures
        is_blank_spec(api_key@) ==> (r matches Err(e) && e@ == SpecItchIoError::MissingApiKey),
        !is_blank_spec(api_key@) ==> exists|resps: Seq<Result<HttpResponse, String>>|
            answered_pages(client, api_key@, resps) && match #[trigger] fetch_pages(
                resps,
                1,
                Seq::empty(),
            ) {
                Ok(gs) => r matches Ok(x) && games_view(x@) == gs,
                Err(e) => r matches Err(x) && x@ == e,
            },
{
    if is_blank(api_key) {
        return Err(ItchIoError::MissingApiKey);
    }
    let mut games: Vec<Game> = Vec::new();
    let mut page: u64 = 1;
    let auth_header = concat("Bearer ", api_key);
    let ghost hdrs = itchio_headers(api_key@);
    let ghost mut so_far: Seq<Result<HttpResponse, String>> = Seq::empty();
    proof {
        assert forall|rest: Seq<Result<HttpResponse, String>>|
            #[trigger] fetch_pages(so_far + rest, 1, Seq::empty()) == fetch_pages(
                rest,
                page as nat,
                games_view(games@),
            ) && reads_all(so_far + rest, 1, Seq::empty()) == reads_all(
                rest,
                page as nat,
                games_view(games@),
            ) by {
            assert(so_far + rest =~= rest);
            assert(games_view(games@) =~= Seq::<SpecGame>::empty());
        }
    }
    loop
        invariant
            1 <= page <= MAX_PAGES,
            !is_blank_spec(api_key@),
            auth_header@ == "Bearer "@ + api_key@,
            hdrs == itchio_headers(api_key@),
            so_far.len() == page - 1,
            forall|k: int|
                0 <= k < so_far.len() ==> client.answers(
                    page_url((k + 1) as nat),
                    hdrs,
                    #[trigger] so_far[k],
                ),
            forall|rest: Seq<Result<HttpResponse, String>>|
                #[trigger] fetch_pages(so_far + rest, 1, Seq::empty()) == fetch_pages(
                    rest,
                    page as nat,
                    games_view(games@),
                ) && reads_all(so_far + rest, 1, Seq::empty()) == reads_all(
                    rest,
                    page as nat,
                    games_view(games@),
                ),
        decreases MAX_PAGES - page,
    {
        let url = owned_keys_url(page);
        let headers = [("Authorization", auth_header.as_str())];
        assert(headers_view(headers@) =~= hdrs);
        let resp = client.get_json(url.as_str(), &headers);
        let ghost resp_g = resp;
        let ghost acc = games_view(games@);
        let ghost w = so_far.push(resp_g);
        let outcome = interpret_page_response(url.as_str(), resp);
        assert(page_result_view(outcome) == page_outcome(page_url(page as nat), resp_g));
        let step = pagination_step(page, games, outcome);
        proof {
            let rest0: Seq<Result<HttpResponse, String>> = seq![resp_g];
            assert(so_far + rest0 =~= w);
            assert(fetch_pages(so_far + rest0, 1, Seq::empty()) == fetch_pages(
                rest0,
                page as nat,
                acc,
            ));
            assert forall|k: int| 0 <= k < w.len() implies client.answers(
                page_url((k + 1) as nat),
                hdrs,
                #[trigger] w[k],
            ) by {
                if k < so_far.len() {
                    assert(w[k] == so_far[k]);
                }
            }
        }
        match step {
            PageStep::Fail(e) => {
                assert(fetch_pages(w, 1, Seq::empty()) matches Err(x) && e@ == x);
                assert(reads_all(w, 1, Seq::empty()));
                return Err(e);
            },
            PageStep::Finish(gs) => {
                assert(fetch_pages(w, 1, Seq::empty()) == Ok::<
                    Seq<SpecGame>,
                    SpecItchIoError,
                >(games_view(gs@)));
                assert(reads_all(w, 1, Seq::empty()));
                return Ok(gs);
            },
            PageStep::Next(gs) => {
                proof {
                    assert forall|rest: Seq<Result<HttpResponse, String>>|
                        #[trigger] fetch_pages(w + rest, 1, Seq::empty()) == fetch_pages(
                            rest,
                            (page + 1) as nat,
                            games_view(gs@),
                        ) && reads_all(w + rest, 1, Seq::empty()) == reads_all(
                            rest,
                            (page + 1) as nat,
                            games_view(gs@),
                        ) by {
                        let rest0 = seq![resp_g] + rest;
                        assert(so_far + rest0 =~= w + rest);
                        assert(rest0.drop_first() =~= rest);
                        assert(fetch_pages(so_far + rest0, 1, Seq::empty()) == fetch_pages(
                            rest0,
                            page as nat,
                            acc,
                        ));
                    }
                    so_far = w;
                }
                games = gs;
                page = page + 1;
            },
        }
    }
}

/// Pagination reads no page past `MAX_PAGES`: from page `page`, responses
/// after the first `MAX_PAGES - page + 1` never change the outcome.
pub proof fn lemma_pagination_stops_by_max_pages(
    resps: Seq<Result<HttpResponse, String>>,
    extra: Seq<Result<HttpResponse, String>>,
    page: nat,
    acc: Seq<SpecGame>,
)
    requires
        1 <= page <= MAX_PAGES,
        resps.len() >= MAX_PAGES - page + 1,
    ensures
        fetch_pages(resps + extra, page, acc) == fetch_pages(resps, page, acc),
    decreases resps.len(),
{
    let all = resps + extra;
    assert(all[0] == resps[0]);
    if let SpecPageStep::Next(gs) = page_step_spec(page, acc, page_outcome(page_url(page), resps[0])) {
        assert(all.drop_first() =~= resps.drop_first() + extra);
        lemma_pagination_stops_by_max_pages(resps.drop_first(), extra, page + 1, gs);
    }
}

/// Pagination reads at most `MAX_PAGES` responses in all: from page `page`,
/// at most `MAX_PAGES - page + 1`.
pub proof fn lemma_reads_at_most_max_pages(
    resps: Seq<Result<HttpResponse, String>>,
    page: nat,
    acc: Seq<SpecGame>,
)
    requires
        1 <= page <= MAX_PAGES,
        reads_all(resps, page, acc),
    ensures
        resps.len() <= MAX_PAGES - page + 1,
    decreases resps.len(),
{
    if let SpecPageStep::Next(gs) = page_step_spec(page, acc, page_outcome(page_url(page), resps[0])) {
        lemma_reads_at_most_max_pages(resps.drop_first(), page + 1, gs);
    }
}

/// Every game in `gs` belongs to itch.io and is not marked installed.
pub open spec fn all_owned_itchio(gs: Seq<SpecGame>) -> bool {
    forall|i: int| 0 <= i < gs.len() ==> (#[trigger] gs[i]).platform == Platform::Itchio
        && !gs[i].installed
}

/// Whatever the client answers, the games fetched never repeat an id, all
/// belong to itch.io and none is marked installed.
pub proof fn lemma_fetched_games_are_distinct(
    resps: Seq<Result<HttpResponse, String>>,
    page: nat,
    acc: Seq<SpecGame>,
)
    requires
        ids_unique(acc),
        all_owned_itchio(acc),
    ensures
        fetch_pages(resps, page, acc) matches Ok(gs) ==> ids_unique(gs) && all_owned_itchio(gs),
    decreases resps.len(),
{
    if resps.len() > 0 {
        if let Ok(gs) = page_outcome(page_url(page), resps[0]) {
            let acc2 = merge_unique(acc, gs);
            lemma_merge_unique_keeps_ids_unique(acc, gs);
            lemma_page_games_are_itchio(page_url(page), resps[0]);
            lemma_merge_keeps_itchio(acc, gs);
            if !(gs.len() < PER_PAGE_HINT || page >= MAX_PAGES) {
                lemma_fetched_games_are_distinct(resps.drop_first(), page + 1, acc2);
            }
        }
    }
}

proof fn lemma_owned_games_are_itchio(items: Seq<JsonValue>, i: int)
    ensures
        owned_games_from(items, i) matches Ok(gs) ==> all_owned_itchio(gs),
    decreases items.len() - i,
{
    if 0 <= i < items.len() {
        lemma_owned_games_are_itchio(items, i + 1);
        if let Ok(g) = owned_game_spec(items[i]) {
            if let Ok(rest) = owned_games_from(items, i + 1) {
                let gs = seq![g] + rest;
                assert forall|k: int| 0 <= k < gs.len() implies (#[trigger] gs[k]).platform
                    == Platform::Itchio && !gs[k].installed by {
                    if k > 0 {
                        assert(gs[k] == rest[k - 1]);
                    }
                }
            }
        }
    }
}

proof fn lemma_page_games_are_itchio(url: Seq<char>, resp: Result<HttpResponse, String>)
    ensures
        page_outcome(url, resp) matches Ok(gs) ==> all_owned_itchio(gs),
{
    if let Ok(r) = resp {
        if let Ok(Some(JsonValue::Array(items))) = owned_keys_field(r.body) {
            lemma_owned_games_are_itchio(items@, 0);
        }
    }
}

proof fn lemma_merge_keeps_itchio(gs: Seq<SpecGame>, new: Seq<SpecGame>)
    requires
        all_owned_itchio(gs),
        all_owned_itchio(new),
    ensures
        all_owned_itchio(merge_unique(gs, new)),
    decreases new.len(),
{
    if new.len() > 0 {
        lemma_merge_keeps_itchio(gs, new.drop_last());
        let m = merge_unique(gs, new.drop_last());
        assert(new.drop_last().len() < new.len());
        assert(new.last() == new[new.len() - 1]);
        if !crate::models::has_game_id(m, new.last().id) {
            let r = m.push(new.last());
            assert forall|k: int| 0 <= k < r.len() implies (#[trigger] r[k]).platform
                == Platform::Itchio && !r[k].installed by {
                if k < m.len() {
                    assert(r[k] == m[k]);
                }
            }
        }
    }
}

/// An itch.io game record's game is the itch.io game with id `itchio:`
/// followed by the record's numeric `id` in decimal, named by its `title`,
/// with its `cover_url` as cover and its store `url` as install path, and
/// not marked installed (owned is not downloaded).
pub proof fn lemma_itch_game_reads_its_fields(
    id: Option<JsonValue>,
    title: Option<JsonValue>,
    cover_url: Option<JsonValue>,
    url: Option<JsonValue>,
)
    ensures
        game_from_fields(id, title, cover_url, url) matches Ok(g) ==> id matches Some(
            JsonValue::Int(n),
        ) && title matches Some(JsonValue::Str(t)) && g.id == "itchio:"@ + signed_decimal(n as int)
            && g.name == t@ && g.platform == Platform::Itchio && !g.installed && Ok::<
            Option<Seq<char>>,
            (),
        >(g.cover_url) == optional_string(cover_url) && Ok::<Option<Seq<char>>, ()>(g.install_path)
            == optional_string(url),
{
    if let Some(JsonValue::Int(n)) = id {
        crate::models::lemma_game_id_prefixes(signed_decimal(n as int));
    }
}

} // verus!
