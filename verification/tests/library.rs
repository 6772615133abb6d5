use zegra::http_client::{HttpClient, HttpResponse};
use zegra::library::{assemble_library, scan_all};
use zegra::models::{Game, Platform, PlatformScanStatus};
use zegra::platforms::gamejolt::UNSUPPORTED_REASON;
use zegra::platforms::itchio::ItchIoError;
use zegra::settings::Settings;

struct NoopHttpClient;

impl HttpClient for NoopHttpClient {
    fn get_json(&self, _url: &str, _headers: &[(&str, &str)]) -> Result<HttpResponse, String> {
        Err("network disabled in test".to_string())
    }
}

#[test]
fn scan_all_without_itchio_key_marks_it_unsupported_and_gamejolt_unsupported() {
    let settings = Settings::default();
    let result = scan_all(&settings, &NoopHttpClient, vec![], vec![], vec![]);

    let itchio_result = result
        .platform_results
        .iter()
        .find(|r| r.platform == Platform::Itchio)
        .unwrap();
    assert!(matches!(
        itchio_result.status,
        PlatformScanStatus::Unsupported { .. }
    ));

    let gamejolt_result = result
        .platform_results
        .iter()
        .find(|r| r.platform == Platform::Gamejolt)
        .unwrap();
    assert!(matches!(
        gamejolt_result.status,
        PlatformScanStatus::Unsupported { .. }
    ));

    // Steam/GOG/Epic should still report success even though nothing was found.
    for platform in [Platform::Steam, Platform::Gog, Platform::Epic] {
        let r = result
            .platform_results
            .iter()
            .find(|r| r.platform == platform)
            .unwrap();
        assert_eq!(r.status, PlatformScanStatus::Succeeded);
    }
}

#[test]
fn scan_all_surfaces_itchio_errors_when_key_is_present_but_request_fails() {
    let mut settings = Settings::default();
    settings.itchio_api_key = Some("bad-key".to_string());
    let result = scan_all(&settings, &NoopHttpClient, vec![], vec![], vec![]);
    let itchio_result = result
        .platform_results
        .iter()
        .find(|r| r.platform == Platform::Itchio)
        .unwrap();
    assert!(matches!(
        itchio_result.status,
        PlatformScanStatus::Error { .. }
    ));
}

fn game(p: Platform, id: &str) -> Game {
    Game::new(p, id.to_string(), format!("Game {id}"))
}

#[test]
fn assembled_library_lists_every_platform_in_order() {
    let result = assemble_library(
        vec![game(Platform::Steam, "1")],
        vec![game(Platform::Gog, "2")],
        vec![game(Platform::Epic, "3")],
        Some(Ok(vec![game(Platform::Itchio, "4")])),
    );
    let ids: Vec<&str> = result.games.iter().map(|g| g.id.as_str()).collect();
    assert_eq!(ids, vec!["steam:1", "gog:2", "epic:3", "itchio:4"]);
    let platforms: Vec<Platform> = result.platform_results.iter().map(|r| r.platform).collect();
    assert_eq!(
        platforms,
        vec![Platform::Steam, Platform::Gog, Platform::Epic, Platform::Itchio, Platform::Gamejolt]
    );
    assert_eq!(result.platform_results[3].status, PlatformScanStatus::Succeeded);
    assert_eq!(result.platform_results[3].games.len(), 1);
    assert_eq!(
        result.platform_results[4].status,
        PlatformScanStatus::Unsupported { reason: UNSUPPORTED_REASON.to_string() }
    );
}

#[test]
fn itchio_failure_and_missing_key_are_reported_distinctly() {
    let failed = assemble_library(vec![], vec![], vec![], Some(Err(ItchIoError::Api("invalid key".to_string()))));
    assert_eq!(
        failed.platform_results[3].status,
        PlatformScanStatus::Error { message: "itch.io returned an error: invalid key".to_string() }
    );
    assert!(failed.games.is_empty());
    let skipped = assemble_library(vec![], vec![], vec![], None);
    assert_eq!(
        skipped.platform_results[3].status,
        PlatformScanStatus::Unsupported { reason: "no itch.io API key configured in Settings".to_string() }
    );
}

#[test]
fn whitespace_itchio_key_is_reported_as_missing() {
    let mut settings = Settings::default();
    settings.itchio_api_key = Some("   ".to_string());
    let result = scan_all(&settings, &NoopHttpClient, vec![game(Platform::Steam, "9")], vec![], vec![]);
    assert_eq!(
        result.platform_results[3].status,
        PlatformScanStatus::Error { message: "no itch.io API key configured".to_string() }
    );
    assert_eq!(result.games.len(), 1);
}
