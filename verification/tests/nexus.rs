use zegra::urls::UrlParts;
use zegra::platforms::nexus::nxm_link_from_parts;
use zegra::http_client::{HttpClient, HttpResponse};
use zegra::json::JsonValue;
use zegra::platforms::nexus::{
    api_key_header, download_link_url, interpret_download_response, parse_nxm_url,
    resolve_download_url, NexusError, NxmLink,
};

fn s(x: &str) -> JsonValue {
    JsonValue::Str(x.to_string())
}

fn obj(members: Vec<(&str, JsonValue)>) -> JsonValue {
    JsonValue::Object(members.into_iter().map(|(k, v)| (k.to_string(), v)).collect())
}

#[test]
fn parses_a_real_shaped_nxm_link() {
    let link = parse_nxm_url(
        "nxm://skyrimspecialedition/mods/12345/files/67890?key=abc123&expires=1700000000&user_id=42",
    )
    .unwrap();
    assert_eq!(link.game_domain, "skyrimspecialedition");
    assert_eq!(link.mod_id, "12345");
    assert_eq!(link.file_id, "67890");
    assert_eq!(link.key.as_deref(), Some("abc123"));
    assert_eq!(link.expires.as_deref(), Some("1700000000"));
}

#[test]
fn parses_a_premium_link_without_key_or_expires() {
    let link = parse_nxm_url("nxm://stardewvalley/mods/1/files/2").unwrap();
    assert_eq!(link.key, None);
    assert_eq!(link.expires, None);
}

#[test]
fn rejects_non_nxm_scheme() {
    let err = parse_nxm_url("https://nexusmods.com/mods/1/files/2").unwrap_err();
    assert!(matches!(err, NexusError::InvalidLink(_)));
}

#[test]
fn rejects_unexpected_path_shape() {
    let err = parse_nxm_url("nxm://skyrim/not-a-mod-path").unwrap_err();
    assert!(matches!(err, NexusError::InvalidLink(_)));
}

struct MockClient {
    expected_url_contains: Vec<&'static str>,
    response: Result<(u16, fn() -> JsonValue), String>,
}

impl HttpClient for MockClient {
    fn get_json(&self, url: &str, headers: &[(&str, &str)]) -> Result<HttpResponse, String> {
        for fragment in &self.expected_url_contains {
            assert!(url.contains(fragment), "expected {url} to contain {fragment}");
        }
        assert!(headers.iter().any(|(k, _)| *k == "apikey"));
        match &self.response {
            Ok((status, body)) => Ok(HttpResponse {
                status: *status,
                body: body(),
            }),
            Err(e) => Err(e.clone()),
        }
    }
}

fn sample_link() -> NxmLink {
    NxmLink {
        game_domain: "skyrimspecialedition".to_string(),
        mod_id: "12345".to_string(),
        file_id: "67890".to_string(),
        key: Some("abc123".to_string()),
        expires: Some("1700000000".to_string()),
    }
}

#[test]
fn nexus_missing_api_key_short_circuits() {
    let client = MockClient {
        expected_url_contains: vec![],
        response: Err("should not be called".to_string()),
    };
    let err = resolve_download_url(&client, "", &sample_link()).unwrap_err();
    assert_eq!(err, NexusError::MissingApiKey);
}

fn cdn_mirror() -> JsonValue {
    JsonValue::Array(vec![obj(vec![
        ("name", s("Nexus CDN")),
        ("short_name", s("Nexus")),
        ("URI", s("https://cdn.nexusmods.com/file.zip")),
    ])])
}

#[test]
fn builds_the_documented_download_link_url_with_key_and_expires() {
    let client = MockClient {
        expected_url_contains: vec![
            "/v1/games/skyrimspecialedition/mods/12345/files/67890/download_link.json",
            "key=abc123",
            "expires=1700000000",
        ],
        response: Ok((200, cdn_mirror)),
    };
    let resolved = resolve_download_url(&client, "my-api-key", &sample_link()).unwrap();
    assert_eq!(resolved, "https://cdn.nexusmods.com/file.zip");
}

fn other_mirror() -> JsonValue {
    JsonValue::Array(vec![obj(vec![("URI", s("https://cdn.nexusmods.com/other.zip"))])])
}

#[test]
fn premium_link_omits_key_and_expires_from_the_request() {
    let link = NxmLink {
        game_domain: "stardewvalley".to_string(),
        mod_id: "1".to_string(),
        file_id: "2".to_string(),
        key: None,
        expires: None,
    };
    let client = MockClient {
        expected_url_contains: vec!["/v1/games/stardewvalley/mods/1/files/2/download_link.json"],
        response: Ok((200, other_mirror)),
    };
    let url_before = download_link_url(&link).unwrap();
    assert!(!url_before.contains('?'));
    let resolved = resolve_download_url(&client, "my-api-key", &link).unwrap();
    assert_eq!(resolved, "https://cdn.nexusmods.com/other.zip");
}

fn forbidden_body() -> JsonValue {
    obj(vec![("message", s("not premium and key/expires invalid"))])
}

#[test]
fn nexus_non_success_status_becomes_api_error() {
    let client = MockClient {
        expected_url_contains: vec![],
        response: Ok((403, forbidden_body)),
    };
    let err = resolve_download_url(&client, "my-api-key", &sample_link()).unwrap_err();
    assert_eq!(
        err,
        NexusError::Api("not premium and key/expires invalid".to_string())
    );
}

fn empty_list() -> JsonValue {
    JsonValue::Array(vec![])
}

#[test]
fn empty_mirror_list_is_a_distinct_error() {
    let client = MockClient {
        expected_url_contains: vec![],
        response: Ok((200, empty_list)),
    };
    let err = resolve_download_url(&client, "my-api-key", &sample_link()).unwrap_err();
    assert_eq!(err, NexusError::NoMirrors);
}

#[test]
fn propagates_transport_errors() {
    let client = MockClient {
        expected_url_contains: vec![],
        response: Err("connection refused".to_string()),
    };
    let err = resolve_download_url(&client, "my-api-key", &sample_link()).unwrap_err();
    assert!(matches!(err, NexusError::Request(_, _)));
}

#[test]
fn download_link_url_is_exact() {
    assert_eq!(
        download_link_url(&sample_link()).unwrap(),
        "https://api.nexusmods.com/v1/games/skyrimspecialedition/mods/12345/files/67890/download_link.json?key=abc123&expires=1700000000"
    );
    let only_key = NxmLink { expires: None, ..sample_link() };
    assert_eq!(
        download_link_url(&only_key).unwrap(),
        "https://api.nexusmods.com/v1/games/skyrimspecialedition/mods/12345/files/67890/download_link.json?key=abc123"
    );
}

#[test]
fn query_values_are_form_encoded() {
    let link = NxmLink { key: Some("a b&c".to_string()), expires: None, ..sample_link() };
    let url = download_link_url(&link).unwrap();
    assert!(url.ends_with("?key=a+b%26c"), "{url}");
}

#[test]
fn later_query_pairs_win_and_others_are_ignored() {
    let link = parse_nxm_url("nxm://g/mods/1/files/2?key=a&user_id=9&key=b").unwrap();
    assert_eq!(link.key.as_deref(), Some("b"));
    assert_eq!(link.expires, None);
}

#[test]
fn invalid_link_messages() {
    assert_eq!(
        parse_nxm_url("https://nexusmods.com/mods/1/files/2").unwrap_err(),
        NexusError::InvalidLink("expected an nxm:// link, got https://".to_string())
    );
    assert_eq!(
        parse_nxm_url("nxm://skyrim/not-a-mod-path").unwrap_err(),
        NexusError::InvalidLink("expected /mods/<id>/files/<id>, got /not-a-mod-path".to_string())
    );
    assert_eq!(
        parse_nxm_url("nxm:/mods/1/files/2").unwrap_err(),
        NexusError::InvalidLink("missing game domain".to_string())
    );
    assert!(matches!(parse_nxm_url("not a url"), Err(NexusError::InvalidLink(_))));
}

#[test]
fn response_interpretation() {
    let url = "https://api.example/x";
    assert_eq!(
        interpret_download_response(url, Err("boom".to_string())),
        Err(NexusError::Request(url.to_string(), "boom".to_string()))
    );
    assert_eq!(
        interpret_download_response(url, Ok(HttpResponse { status: 500, body: JsonValue::Null })),
        Err(NexusError::Api("unknown error".to_string()))
    );
    assert!(matches!(
        interpret_download_response(url, Ok(HttpResponse { status: 200, body: obj(vec![]) })),
        Err(NexusError::Parse(_))
    ));
    assert_eq!(
        interpret_download_response(
            url,
            Ok(HttpResponse { status: 200, body: JsonValue::Array(vec![obj(vec![("name", s("x"))])]) })
        ),
        Err(NexusError::Parse("missing field `URI`".to_string()))
    );
    let two = JsonValue::Array(vec![
        obj(vec![("URI", s("https://first"))]),
        obj(vec![("URI", s("https://second"))]),
    ]);
    assert_eq!(
        interpret_download_response(url, Ok(HttpResponse { status: 299, body: two })),
        Ok("https://first".to_string())
    );
}

#[test]
fn nexus_error_messages() {
    assert_eq!(NexusError::MissingApiKey.message(), "no Nexus Mods API key configured");
    assert_eq!(
        NexusError::Request("u".to_string(), "e".to_string()).message(),
        "request to u failed: e"
    );
    assert_eq!(NexusError::NoMirrors.message(), "Nexus Mods returned no download mirrors for this file");
    assert_eq!(NexusError::Api("x".to_string()).message(), "Nexus Mods returned an error: x");
    assert_eq!(NexusError::Parse("x".to_string()).message(), "could not parse Nexus Mods response: x");
    assert_eq!(NexusError::InvalidLink("x".to_string()).message(), "not a valid nxm:// link: x");
}

#[test]
fn the_api_key_goes_in_the_apikey_header() {
    assert_eq!(api_key_header("secret-key"), ("apikey", "secret-key"));
}

#[test]
fn reads_a_link_out_of_its_parsed_url() {
    let parts = |scheme: &str, host: Option<&str>, segs: Option<Vec<&str>>| UrlParts {
        scheme: scheme.to_string(),
        host: host.map(|h| h.to_string()),
        path: "/p".to_string(),
        segments: segs.map(|s| s.into_iter().map(String::from).collect()),
        query: vec![
            ("key".to_string(), "a".to_string()),
            ("expires".to_string(), "9".to_string()),
            ("key".to_string(), "b".to_string()),
        ],
    };
    let link = nxm_link_from_parts(parts("nxm", Some("skyrim"), Some(vec!["mods", "1", "files", "2"])))
        .unwrap();
    assert_eq!(link.game_domain, "skyrim");
    assert_eq!(link.mod_id, "1");
    assert_eq!(link.file_id, "2");
    assert_eq!(link.key.as_deref(), Some("b"));
    assert_eq!(link.expires.as_deref(), Some("9"));
    assert_eq!(
        nxm_link_from_parts(parts("https", Some("x"), None)),
        Err(NexusError::InvalidLink("expected an nxm:// link, got https://".to_string()))
    );
    assert_eq!(
        nxm_link_from_parts(parts("nxm", None, None)),
        Err(NexusError::InvalidLink("missing game domain".to_string()))
    );
    assert_eq!(
        nxm_link_from_parts(parts("nxm", Some("x"), Some(vec!["mods", "1"]))),
        Err(NexusError::InvalidLink("expected /mods/<id>/files/<id>, got /p".to_string()))
    );
}

#[test]
fn mirrors_may_be_given_as_arrays() {
    let body = JsonValue::Array(vec![JsonValue::Array(vec![s("https://cdn.example/f.zip")])]);
    let r = interpret_download_response("u", Ok(HttpResponse { status: 200, body }));
    assert_eq!(r, Ok("https://cdn.example/f.zip".to_string()));
    let body = JsonValue::Array(vec![JsonValue::Array(vec![])]);
    assert!(matches!(
        interpret_download_response("u", Ok(HttpResponse { status: 200, body })),
        Err(NexusError::Parse(_))
    ));
}
