use zegra::commands::{first_nxm_url, mod_window_label, mod_windows_to_hide, nxm_result_message, resolve_nxm_link};
use zegra::http_client::{HttpClient, HttpResponse};
use zegra::json::JsonValue;
use zegra::settings::Settings;
use zegra::string_map::StringMap;
use zegra::theme::{check_theme_file, ThemeError, MAX_THEME_SIZE_BYTES};

#[test]
fn theme_checks_in_order() {
    assert_eq!(
        check_theme_file("/t/mytheme.txt", Some("txt"), Some(10)),
        Err(ThemeError::NotCss("/t/mytheme.txt".to_string()))
    );
    assert_eq!(
        check_theme_file("/does/not/exist/theme", None, None),
        Err(ThemeError::NotCss("/does/not/exist/theme".to_string()))
    );
    assert_eq!(
        check_theme_file("/does/not/exist/theme.css", Some("css"), None),
        Err(ThemeError::NotFound("/does/not/exist/theme.css".to_string()))
    );
    assert_eq!(
        check_theme_file("/t/huge.css", Some("css"), Some(MAX_THEME_SIZE_BYTES + 1)),
        Err(ThemeError::TooLarge)
    );
    assert_eq!(check_theme_file("/t/ok.css", Some("css"), Some(MAX_THEME_SIZE_BYTES)), Ok(()));
    assert_eq!(check_theme_file("/t/ok.CSS", Some("CSS"), Some(1)), Err(ThemeError::NotCss("/t/ok.CSS".to_string())));
}

#[test]
fn theme_error_messages() {
    assert_eq!(ThemeError::TooLarge.message(), "theme file is too large (max 2097152 bytes)");
    assert_eq!(ThemeError::NotFound("p".to_string()).message(), "theme file not found: p");
    assert_eq!(ThemeError::NotCss("p".to_string()).message(), "theme file must have a .css extension: p");
    assert_eq!(ThemeError::Read("e".to_string()).message(), "failed to read theme file: e");
}

#[test]
fn mod_windows() {
    assert_eq!(mod_window_label("nexusmods"), "mods-nexusmods");
    let labels = vec![
        "main".to_string(),
        "mods-nexusmods".to_string(),
        "mods-curseforge".to_string(),
        "mods-moddb".to_string(),
    ];
    assert_eq!(mod_windows_to_hide(&labels, Some("curseforge")), vec!["mods-nexusmods", "mods-moddb"]);
    assert_eq!(
        mod_windows_to_hide(&labels, None),
        vec!["mods-nexusmods", "mods-curseforge", "mods-moddb"]
    );
}

#[test]
fn deep_links() {
    let urls = vec!["https://x".to_string(), "nxm://a/mods/1/files/2".to_string(), "nxm://b".to_string()];
    assert_eq!(first_nxm_url(&urls).as_deref(), Some("nxm://a/mods/1/files/2"));
    assert_eq!(first_nxm_url(&vec!["NXM://a".to_string()]), None);
    assert_eq!(nxm_result_message(&Ok("https://cdn/f.zip".to_string())), "resolved: https://cdn/f.zip");
    assert_eq!(nxm_result_message(&Err("boom".to_string())), "error: boom");
}

struct OneMirror;

impl HttpClient for OneMirror {
    fn get_json(&self, url: &str, headers: &[(&str, &str)]) -> Result<HttpResponse, String> {
        assert!(url.starts_with("https://api.nexusmods.com/v1/games/g/mods/1/files/2/download_link.json"));
        assert_eq!(headers, &[("apikey", "k")]);
        Ok(HttpResponse {
            status: 200,
            body: JsonValue::Array(vec![JsonValue::Object(vec![(
                "URI".to_string(),
                JsonValue::Str("https://cdn/f.zip".to_string()),
            )])]),
        })
    }
}

#[test]
fn resolving_nxm_links_with_settings() {
    let mut settings = Settings::default();
    assert_eq!(
        resolve_nxm_link(&OneMirror, &settings, "nxm://g/mods/1/files/2"),
        Err("no Nexus Mods API key configured in Settings".to_string())
    );
    settings.nexus_api_key = Some("k".to_string());
    assert_eq!(
        resolve_nxm_link(&OneMirror, &settings, "nxm://g/mods/1/files/2"),
        Ok("https://cdn/f.zip".to_string())
    );
    assert_eq!(
        resolve_nxm_link(&OneMirror, &settings, "https://g/mods/1/files/2"),
        Err("not a valid nxm:// link: expected an nxm:// link, got https://".to_string())
    );
    settings.nexus_api_key = Some("".to_string());
    assert_eq!(
        resolve_nxm_link(&OneMirror, &settings, "nxm://g/mods/1/files/2"),
        Err("no Nexus Mods API key configured".to_string())
    );
}

#[test]
fn string_map_reads_back_what_was_written() {
    let mut m = StringMap::new();
    assert_eq!(m.len(), 0);
    m.insert("a".to_string(), "1".to_string());
    m.insert("b".to_string(), "2".to_string());
    m.insert("a".to_string(), "3".to_string());
    assert_eq!(m.len(), 2);
    assert_eq!(m.get("a").unwrap(), "3");
    assert_eq!(m.get("b").unwrap(), "2");
    assert!(m.get("c").is_none());
}
