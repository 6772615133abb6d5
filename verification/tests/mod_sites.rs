use zegra::urls::UrlParts;
use zegra::mod_sites::check_site;
use zegra::mod_sites::{built_in_site, resolve_site, validate_all, ModSiteError};
use zegra::settings::{validate_for_save, CustomModSite, Settings, SettingsError};

fn site(id: &str, name: &str, url: &str) -> CustomModSite {
    CustomModSite {
        id: id.to_string(),
        name: name.to_string(),
        url: url.to_string(),
    }
}

#[test]
fn resolves_built_in_sites() {
    let resolved = resolve_site("nexusmods", &[]).unwrap();
    assert_eq!(resolved.url, "https://www.nexusmods.com");
    assert_eq!(resolved.title, "Nexus Mods");
}

#[test]
fn resolves_custom_sites() {
    let custom = vec![site("moddb", "ModDB", "https://www.moddb.com")];
    let resolved = resolve_site("moddb", &custom).unwrap();
    assert_eq!(resolved.url, "https://www.moddb.com");
    assert_eq!(resolved.title, "ModDB");
}

#[test]
fn built_in_sites_take_priority_over_a_same_id_custom_site() {
    let custom = vec![site("nexusmods", "Fake Nexus", "https://evil.example")];
    let resolved = resolve_site("nexusmods", &custom).unwrap();
    assert_eq!(resolved.url, "https://www.nexusmods.com");
}

#[test]
fn unknown_site_errors() {
    let err = resolve_site("not-a-real-site", &[]).unwrap_err();
    assert_eq!(err, ModSiteError::UnknownSite("not-a-real-site".to_string()));
}

#[test]
fn validates_a_good_custom_site() {
    let sites = vec![site("gamebanana", "GameBanana", "https://gamebanana.com")];
    assert_eq!(validate_all(&sites), Ok(()));
}

#[test]
fn rejects_empty_name() {
    let sites = vec![site("x", "  ", "https://example.com")];
    assert_eq!(validate_all(&sites), Err(ModSiteError::EmptyName));
}

#[test]
fn rejects_non_http_schemes() {
    for url in ["file:///etc/passwd", "javascript:alert(1)", "nxm://game/mods/1/files/2", "ftp://example.com"] {
        let sites = vec![site("x", "Bad", url)];
        assert_eq!(
            validate_all(&sites),
            Err(ModSiteError::InvalidUrl(url.to_string())),
            "expected {url} to be rejected"
        );
    }
}

#[test]
fn rejects_malformed_url() {
    let sites = vec![site("x", "Bad", "not a url")];
    assert!(matches!(validate_all(&sites), Err(ModSiteError::InvalidUrl(_))));
}

#[test]
fn rejects_id_colliding_with_a_built_in_site() {
    let sites = vec![site("curseforge", "My Site", "https://example.com")];
    assert_eq!(
        validate_all(&sites),
        Err(ModSiteError::DuplicateId("curseforge".to_string()))
    );
}

#[test]
fn rejects_duplicate_ids_within_the_custom_list_itself() {
    let sites = vec![
        site("moddb", "ModDB", "https://moddb.com"),
        site("moddb", "ModDB Again", "https://moddb.com/other"),
    ];
    assert_eq!(
        validate_all(&sites),
        Err(ModSiteError::DuplicateId("moddb".to_string()))
    );
}

#[test]
fn first_custom_site_with_an_id_wins() {
    let custom = vec![
        site("moddb", "ModDB", "https://www.moddb.com"),
        site("moddb", "Other", "https://other.example"),
    ];
    assert_eq!(resolve_site("moddb", &custom).unwrap().title, "ModDB");
}

#[test]
fn empty_site_list_is_valid() {
    assert_eq!(validate_all(&[]), Ok(()));
}

#[test]
fn the_first_failing_site_decides_the_error() {
    let sites = vec![
        site("a", "A", "https://a.example"),
        site("b", "", "javascript:x"),
        site("a", "A again", "https://a.example"),
    ];
    assert_eq!(validate_all(&sites), Err(ModSiteError::EmptyName));
}

#[test]
fn uppercase_scheme_is_accepted() {
    let sites = vec![site("up", "Up", "HTTPS://Example.com")];
    assert_eq!(validate_all(&sites), Ok(()));
}

#[test]
fn built_in_sites_are_known_by_exact_id() {
    assert_eq!(built_in_site("curseforge"), Some(("https://www.curseforge.com", "CurseForge")));
    assert_eq!(built_in_site("CurseForge"), None);
}

#[test]
fn mod_site_error_messages() {
    assert_eq!(ModSiteError::UnknownSite("x".to_string()).message(), "unknown mod site: x");
    assert_eq!(ModSiteError::EmptyName.message(), "mod site name cannot be empty");
    assert_eq!(
        ModSiteError::InvalidUrl("ftp://a".to_string()).message(),
        "mod site URL must start with http:// or https://: ftp://a"
    );
    assert_eq!(
        ModSiteError::DuplicateId("moddb".to_string()).message(),
        "a mod site with id \"moddb\" already exists"
    );
}

#[test]
fn saving_rejects_invalid_custom_mod_sites() {
    let mut settings = Settings::default();
    settings.custom_mod_sites.push(site("bad", "Bad", "javascript:alert(1)"));
    assert_eq!(
        validate_for_save(&settings),
        Err(SettingsError::Validation(
            "mod site URL must start with http:// or https://: javascript:alert(1)".to_string()
        ))
    );
    assert_eq!(validate_for_save(&Settings::default()), Ok(()));
}

#[test]
fn settings_error_messages() {
    assert_eq!(SettingsError::Read("x".to_string()).message(), "failed to read settings file: x");
    assert_eq!(SettingsError::Write("x".to_string()).message(), "failed to write settings file: x");
    assert_eq!(SettingsError::Parse("x".to_string()).message(), "failed to parse settings file: x");
    assert_eq!(SettingsError::Validation("x".to_string()).message(), "invalid settings: x");
}

#[test]
fn checks_run_in_order_within_a_site() {
    // A blank name is reported before a bad URL or a taken id.
    let sites = vec![site("nexusmods", " ", "ftp://x")];
    assert_eq!(validate_all(&sites), Err(ModSiteError::EmptyName));
    // A bad URL is reported before a taken id.
    let sites = vec![site("nexusmods", "N", "ftp://x")];
    assert_eq!(validate_all(&sites), Err(ModSiteError::InvalidUrl("ftp://x".to_string())));
    // Every site passing every check is accepted.
    let sites = vec![site("a", "A", "https://a.example"), site("b", "B", "http://b.example")];
    assert_eq!(validate_all(&sites), Ok(()));
}

#[test]
fn checks_a_site_against_its_parsed_url() {
    let parsed = |scheme: &str| {
        Ok(UrlParts {
            scheme: scheme.to_string(),
            host: Some("h".to_string()),
            path: "/".to_string(),
            segments: Some(vec![String::new()]),
            query: vec![],
        })
    };
    let s = site("x", "X", "whatever");
    assert_eq!(check_site(&s, parsed("https"), &[]), Ok(()));
    assert_eq!(check_site(&s, parsed("ftp"), &[]), Err(ModSiteError::InvalidUrl("whatever".to_string())));
    assert_eq!(
        check_site(&s, Err("relative URL without a base".to_string()), &[]),
        Err(ModSiteError::InvalidUrl("whatever".to_string()))
    );
    assert_eq!(
        check_site(&s, parsed("http"), &[site("x", "Other", "https://o.example")]),
        Err(ModSiteError::DuplicateId("x".to_string()))
    );
}
