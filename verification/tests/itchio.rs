use std::cell::RefCell;

use zegra::http_client::{HttpClient, HttpResponse};
use zegra::json::JsonValue;
use zegra::platforms::itchio::{
    fetch_owned_games, interpret_page_response, owned_keys_url, page_games, pagination_step,
    ItchIoError, PageStep, MAX_PAGES, PER_PAGE_HINT,
};
use zegra::models::{Game, Platform};

fn s(x: &str) -> JsonValue {
    JsonValue::Str(x.to_string())
}

fn obj(members: Vec<(&str, JsonValue)>) -> JsonValue {
    JsonValue::Object(members.into_iter().map(|(k, v)| (k.to_string(), v)).collect())
}

struct MockClient {
    pages: Vec<(String, Box<dyn Fn() -> JsonValue>)>,
    calls: RefCell<Vec<(String, String)>>,
}

impl MockClient {
    fn new(pages: Vec<(&str, Box<dyn Fn() -> JsonValue>)>) -> Self {
        MockClient {
            pages: pages.into_iter().map(|(k, v)| (k.to_string(), v)).collect(),
            calls: RefCell::new(Vec::new()),
        }
    }
}

impl HttpClient for MockClient {
    fn get_json(&self, url: &str, headers: &[(&str, &str)]) -> Result<HttpResponse, String> {
        let auth = headers
            .iter()
            .find(|(name, _)| *name == "Authorization")
            .map(|(_, v)| v.to_string())
            .unwrap_or_default();
        self.calls.borrow_mut().push((url.to_string(), auth));
        self.pages
            .iter()
            .find(|(u, _)| u == url)
            .map(|(_, body)| HttpResponse { status: 200, body: body() })
            .ok_or_else(|| format!("unexpected url: {url}"))
    }
}

fn owned_key_json(id: i64, title: &str) -> JsonValue {
    obj(vec![(
        "game",
        obj(vec![
            ("id", JsonValue::Int(id as i128)),
            ("title", s(title)),
            ("cover_url", s(&format!("https://example.test/{id}.png"))),
            ("url", s(&format!("https://x.itch.io/{title}"))),
        ]),
    )])
}

#[test]
fn itchio_missing_api_key_short_circuits() {
    let client = MockClient::new(vec![]);
    let err = fetch_owned_games(&client, "").unwrap_err();
    assert_eq!(err, ItchIoError::MissingApiKey);
}

#[test]
fn parses_single_page_of_owned_games() {
    let client = MockClient::new(vec![(
        "https://api.itch.io/profile/owned-keys?page=1",
        Box::new(|| {
            obj(vec![(
                "owned_keys",
                JsonValue::Array(vec![owned_key_json(1, "Celeste Classic"), owned_key_json(2, "Doukutsu")]),
            )])
        }),
    )]);
    let games = fetch_owned_games(&client, "test-key").unwrap();
    assert_eq!(games.len(), 2);
    assert_eq!(games[0].id, "itchio:1");
    assert_eq!(games[0].name, "Celeste Classic");
    assert!(!games[0].installed);
    assert_eq!(client.calls.borrow()[0].1, "Bearer test-key");
}

#[test]
fn follows_pagination_until_short_page() {
    let client = MockClient::new(vec![
        (
            "https://api.itch.io/profile/owned-keys?page=1",
            Box::new(|| {
                let full_page: Vec<_> = (0..PER_PAGE_HINT)
                    .map(|i| owned_key_json(i as i64, &format!("Game {i}")))
                    .collect();
                obj(vec![("owned_keys", JsonValue::Array(full_page))])
            }),
        ),
        (
            "https://api.itch.io/profile/owned-keys?page=2",
            Box::new(|| obj(vec![("owned_keys", JsonValue::Array(vec![owned_key_json(999, "Last Game")]))])),
        ),
    ]);
    let games = fetch_owned_games(&client, "test-key").unwrap();
    assert_eq!(games.len(), PER_PAGE_HINT + 1);
    assert_eq!(client.calls.borrow().len(), 2);
}

#[test]
fn propagates_request_errors() {
    struct FailingClient;
    impl HttpClient for FailingClient {
        fn get_json(&self, _url: &str, _headers: &[(&str, &str)]) -> Result<HttpResponse, String> {
            Err("connection refused".to_string())
        }
    }
    let err = fetch_owned_games(&FailingClient, "key").unwrap_err();
    matches!(err, ItchIoError::Request(_, _));
}

#[test]
fn itchio_non_success_status_becomes_api_error() {
    struct UnauthorizedClient;
    impl HttpClient for UnauthorizedClient {
        fn get_json(&self, _url: &str, _headers: &[(&str, &str)]) -> Result<HttpResponse, String> {
            Ok(HttpResponse {
                status: 401,
                body: obj(vec![("errors", JsonValue::Array(vec![s("invalid key")]))]),
            })
        }
    }
    let err = fetch_owned_games(&UnauthorizedClient, "bad-key").unwrap_err();
    assert_eq!(err, ItchIoError::Api("invalid key".to_string()));
}

#[test]
fn request_errors_name_the_page_url() {
    struct FailingClient;
    impl HttpClient for FailingClient {
        fn get_json(&self, _url: &str, _headers: &[(&str, &str)]) -> Result<HttpResponse, String> {
            Err("connection refused".to_string())
        }
    }
    assert_eq!(
        fetch_owned_games(&FailingClient, "key").unwrap_err(),
        ItchIoError::Request(
            "https://api.itch.io/profile/owned-keys?page=1".to_string(),
            "connection refused".to_string()
        )
    );
}

#[test]
fn whitespace_only_key_is_missing() {
    let client = MockClient::new(vec![]);
    assert_eq!(fetch_owned_games(&client, " \t").unwrap_err(), ItchIoError::MissingApiKey);
    assert!(client.calls.borrow().is_empty());
}

#[test]
fn duplicate_ids_across_pages_are_kept_once() {
    let client = MockClient::new(vec![
        (
            "https://api.itch.io/profile/owned-keys?page=1",
            Box::new(|| {
                let page: Vec<_> = (0..PER_PAGE_HINT).map(|_| owned_key_json(7, "Same")).collect();
                obj(vec![("owned_keys", JsonValue::Array(page))])
            }),
        ),
        (
            "https://api.itch.io/profile/owned-keys?page=2",
            Box::new(|| obj(vec![("owned_keys", JsonValue::Array(vec![owned_key_json(7, "Again")]))])),
        ),
    ]);
    let games = fetch_owned_games(&client, "k").unwrap();
    assert_eq!(games.len(), 1);
    assert_eq!(games[0].name, "Same");
}

#[test]
fn pagination_stops_after_the_last_allowed_page() {
    struct EndlessClient {
        calls: RefCell<usize>,
    }
    impl HttpClient for EndlessClient {
        fn get_json(&self, _url: &str, _headers: &[(&str, &str)]) -> Result<HttpResponse, String> {
            *self.calls.borrow_mut() += 1;
            let page: Vec<_> = (0..PER_PAGE_HINT).map(|i| owned_key_json(i as i64, "G")).collect();
            Ok(HttpResponse { status: 200, body: obj(vec![("owned_keys", JsonValue::Array(page))]) })
        }
    }
    let client = EndlessClient { calls: RefCell::new(0) };
    let games = fetch_owned_games(&client, "k").unwrap();
    assert_eq!(games.len(), PER_PAGE_HINT);
    assert_eq!(*client.calls.borrow(), 200);
}

#[test]
fn page_parsing() {
    let g = page_games(&obj(vec![("owned_keys", JsonValue::Array(vec![owned_key_json(-3, "Neg")]))])).unwrap();
    assert_eq!(g[0].id, "itchio:-3");
    assert_eq!(g[0].cover_url.as_deref(), Some("https://example.test/-3.png"));
    assert_eq!(g[0].install_path.as_deref(), Some("https://x.itch.io/Neg"));
    assert_eq!(page_games(&obj(vec![])).unwrap().len(), 0);
    assert_eq!(page_games(&JsonValue::Array(vec![])).unwrap().len(), 0);
    assert!(page_games(&JsonValue::Str("x".to_string())).is_err());
    assert_eq!(
        page_games(&obj(vec![("owned_keys", JsonValue::Array(vec![obj(vec![])]))])).unwrap_err(),
        "missing field `game`"
    );
    let no_extras = obj(vec![(
        "owned_keys",
        JsonValue::Array(vec![obj(vec![(
            "game",
            obj(vec![("id", JsonValue::Int(5)), ("title", s("T")), ("cover_url", JsonValue::Null)]),
        )])]),
    )]);
    let g = page_games(&no_extras).unwrap();
    assert_eq!(g[0].cover_url, None);
    assert_eq!(g[0].install_path, None);
    let too_big = obj(vec![(
        "owned_keys",
        JsonValue::Array(vec![obj(vec![(
            "game",
            obj(vec![("id", JsonValue::Int(i64::MAX as i128 + 1)), ("title", s("T"))]),
        )])]),
    )]);
    assert!(page_games(&too_big).is_err());
}

#[test]
fn page_urls() {
    assert_eq!(owned_keys_url(1), "https://api.itch.io/profile/owned-keys?page=1");
    assert_eq!(owned_keys_url(12), "https://api.itch.io/profile/owned-keys?page=12");
}

#[test]
fn page_responses() {
    assert_eq!(
        interpret_page_response("u", Ok(HttpResponse { status: 404, body: obj(vec![("errors", JsonValue::Array(vec![]))]) }))
            .unwrap_err(),
        ItchIoError::Api("unknown error".to_string())
    );
    assert!(matches!(
        interpret_page_response("u", Ok(HttpResponse { status: 200, body: s("x") })),
        Err(ItchIoError::Parse(_))
    ));
}

#[test]
fn itchio_error_messages() {
    assert_eq!(ItchIoError::MissingApiKey.message(), "no itch.io API key configured");
    assert_eq!(ItchIoError::Api("x".to_string()).message(), "itch.io returned an error: x");
    assert_eq!(
        ItchIoError::Request("u".to_string(), "e".to_string()).message(),
        "request to u failed: e"
    );
    assert_eq!(ItchIoError::Parse("p".to_string()).message(), "could not parse itch.io response: p");
}

fn itch_games(ids: &[&str]) -> Vec<Game> {
    ids.iter().map(|id| Game::new(Platform::Itchio, id.to_string(), format!("G{id}"))).collect()
}

fn step_ids(step: &PageStep) -> (&'static str, Vec<String>) {
    match step {
        PageStep::Fail(_) => ("fail", vec![]),
        PageStep::Finish(gs) => ("finish", gs.iter().map(|g| g.id.clone()).collect()),
        PageStep::Next(gs) => ("next", gs.iter().map(|g| g.id.clone()).collect()),
    }
}

#[test]
fn pagination_step_rules() {
    // A full page goes on, merging new games after those already found.
    let step = pagination_step(1, itch_games(&["1"]), Ok(itch_games(&["1", "2", "3", "4", "5"])));
    assert_eq!(
        step_ids(&step),
        ("next", vec!["itchio:1", "itchio:2", "itchio:3", "itchio:4", "itchio:5"]
            .into_iter().map(String::from).collect())
    );
    // A short page finishes.
    let step = pagination_step(2, itch_games(&["9"]), Ok(itch_games(&["1", "2"])));
    assert_eq!(
        step_ids(&step),
        ("finish", vec!["itchio:9", "itchio:1", "itchio:2"].into_iter().map(String::from).collect())
    );
    // A full last allowed page finishes too.
    let full = itch_games(&["1", "2", "3", "4", "5"]);
    assert_eq!(full.len(), PER_PAGE_HINT);
    assert_eq!(step_ids(&pagination_step(MAX_PAGES, vec![], Ok(full))).0, "finish");
    // An error ends pagination with that error.
    match pagination_step(3, itch_games(&["1"]), Err(ItchIoError::Api("nope".to_string()))) {
        PageStep::Fail(e) => assert_eq!(e, ItchIoError::Api("nope".to_string())),
        _ => panic!("expected a failure"),
    }
}

#[test]
fn requests_pages_in_turn_with_the_bearer_header() {
    let client = MockClient::new(vec![
        (
            "https://api.itch.io/profile/owned-keys?page=1",
            Box::new(|| {
                let full: Vec<_> = (0..PER_PAGE_HINT).map(|i| owned_key_json(i as i64, "G")).collect();
                obj(vec![("owned_keys", JsonValue::Array(full))])
            }),
        ),
        ("https://api.itch.io/profile/owned-keys?page=2", Box::new(|| obj(vec![]))),
    ]);
    let games = fetch_owned_games(&client, "k1").unwrap();
    assert_eq!(games.len(), PER_PAGE_HINT);
    let calls = client.calls.borrow();
    assert_eq!(
        *calls,
        vec![
            ("https://api.itch.io/profile/owned-keys?page=1".to_string(), "Bearer k1".to_string()),
            ("https://api.itch.io/profile/owned-keys?page=2".to_string(), "Bearer k1".to_string()),
        ]
    );
}

#[test]
fn records_may_be_given_as_arrays() {
    let game = JsonValue::Array(vec![JsonValue::Int(7), s("Arr"), JsonValue::Null]);
    let key = JsonValue::Array(vec![game]);
    let page = JsonValue::Array(vec![JsonValue::Array(vec![key])]);
    let g = page_games(&page).unwrap();
    assert_eq!(g.len(), 1);
    assert_eq!(g[0].id, "itchio:7");
    assert_eq!(g[0].name, "Arr");
    assert_eq!(g[0].cover_url, None);
    let short_game = JsonValue::Array(vec![JsonValue::Int(7)]);
    let page = JsonValue::Array(vec![JsonValue::Array(vec![JsonValue::Array(vec![short_game])])]);
    assert!(page_games(&page).is_err());
    let two = JsonValue::Array(vec![JsonValue::Array(vec![]), JsonValue::Array(vec![])]);
    assert!(page_games(&two).is_err());
}
