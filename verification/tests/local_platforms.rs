use zegra::platforms::steam::steam_install_path;
use zegra::json::JsonValue;
use zegra::platforms::epic::installed_games;
use zegra::platforms::gog::{info_game, is_info_file_name};
use zegra::platforms::steam::{
    appmanifest_fields, is_appmanifest_file_name, library_folders, library_paths, steam_game,
};

fn s(x: &str) -> JsonValue {
    JsonValue::Str(x.to_string())
}

fn obj(members: Vec<(&str, JsonValue)>) -> JsonValue {
    JsonValue::Object(members.into_iter().map(|(k, v)| (k.to_string(), v)).collect())
}

#[test]
fn steam_manifest_names() {
    assert!(is_appmanifest_file_name("appmanifest_440.acf"));
    assert!(!is_appmanifest_file_name("appmanifest_440.acf.bak"));
    assert!(!is_appmanifest_file_name("libraryfolders.vdf"));
    assert!(is_appmanifest_file_name("appmanifest_.acf"));
    assert!(!is_appmanifest_file_name("appmanifest.acf"));
}

#[test]
fn reads_an_app_manifest() {
    let contents = r#"
        "AppState"
        {
            "appid"         "440"
            "name"          "Team Fortress 2"
            "installdir"    "Team Fortress 2"
        }
    "#;
    let (appid, name, dir) = appmanifest_fields(contents).unwrap();
    assert_eq!(appid, "440");
    assert_eq!(name, "Team Fortress 2");
    assert_eq!(dir.as_deref(), Some("Team Fortress 2"));
    assert!(appmanifest_fields("not valid vdf {{{").is_none());
    assert!(appmanifest_fields(r#""AppState" { "appid" "1" }"#).is_none());
    let (_, _, dir) = appmanifest_fields(r#""appstate" { "appid" "1" "name" "N" }"#).unwrap();
    assert_eq!(dir, None);
}

#[test]
fn steam_games_get_a_cdn_cover() {
    let g = steam_game("440".to_string(), "TF2".to_string(), Some("/lib/steamapps/common/TF2".to_string()));
    assert_eq!(g.id, "steam:440");
    assert_eq!(g.install_path.as_deref(), Some("/lib/steamapps/common/TF2"));
    assert_eq!(
        g.cover_url.as_deref(),
        Some("https://cdn.cloudflare.steamstatic.com/steam/apps/440/library_600x900.jpg")
    );
}

#[test]
fn library_folders_start_with_the_root_and_skip_repeats() {
    let vdf = r#"
        "libraryfolders"
        {
            "0" { "path" "/home/u/.steam/steam" }
            "1" { "path" "/mnt/lib" }
            "2" { "label" "no path here" }
            "3" { "path" "/mnt/lib/" }
        }
    "#;
    assert_eq!(library_paths(vdf), vec!["/home/u/.steam/steam", "/mnt/lib", "/mnt/lib/"]);
    let libs = library_folders("/home/u/.steam/steam", Some(vdf));
    assert_eq!(libs, vec!["/home/u/.steam/steam", "/mnt/lib"]);
    assert_eq!(library_folders("/root", None), vec!["/root"]);
    assert_eq!(library_folders("/root", Some("{{{")), vec!["/root"]);
}

#[test]
fn gog_info_files() {
    assert!(is_info_file_name("goggame-1495134320.info"));
    assert!(!is_info_file_name("readme.txt"));
    let info = obj(vec![
        ("language", s("en-US")),
        ("name", s("The Witcher 3: Wild Hunt")),
        ("gameId", s("1495134320")),
    ]);
    let g = info_game(&info, Some("/games/witcher".to_string())).unwrap();
    assert_eq!(g.id, "gog:1495134320");
    assert_eq!(g.name, "The Witcher 3: Wild Hunt");
    assert_eq!(g.install_path.as_deref(), Some("/games/witcher"));
    assert!(info_game(&s("not json"), None).is_none());
    assert!(info_game(&obj(vec![("name", s("x")), ("gameId", JsonValue::Int(1))]), None).is_none());
}

#[test]
fn legendary_installed_json() {
    let doc = obj(vec![(
        "Fortnite",
        obj(vec![
            ("app_name", s("Fortnite")),
            ("title", s("Fortnite")),
            ("install_path", s("/home/user/Games/Heroic/Fortnite")),
        ]),
    )]);
    let games = installed_games(&doc).unwrap();
    assert_eq!(games.len(), 1);
    assert_eq!(games[0].id, "epic:Fortnite");
    assert_eq!(games[0].name, "Fortnite");
    assert_eq!(games[0].install_path.as_deref(), Some("/home/user/Games/Heroic/Fortnite"));
    let bad = obj(vec![("A", obj(vec![("title", s("A"))])), ("B", obj(vec![("install_path", s("/b"))]))]);
    assert!(installed_games(&bad).is_none());
    let wrong_type = obj(vec![("A", obj(vec![("title", s("A")), ("app_name", JsonValue::Int(3))]))]);
    assert!(installed_games(&wrong_type).is_none());
    let null_path = obj(vec![("A", obj(vec![("title", s("A")), ("install_path", JsonValue::Null)]))]);
    assert_eq!(installed_games(&null_path).unwrap()[0].install_path, None);
    assert!(installed_games(&JsonValue::Array(vec![])).is_none());
}

#[test]
fn library_folders_compare_paths_by_component() {
    let vdf = r#"
        "libraryfolders"
        {
            "0" { "path" "/mnt//games/./lib" }
            "1" { "path" "/mnt/games/lib/" }
            "2" { "path" "/mnt/games/lib2" }
            "3" { "path" "/mnt/games/../games/lib" }
            "4" { "path" "/steam/" }
        }
    "#;
    let libs = library_folders("/steam", Some(vdf));
    assert_eq!(
        libs,
        vec!["/steam", "/mnt//games/./lib", "/mnt/games/lib2", "/mnt/games/../games/lib"]
    );
}

#[test]
fn install_paths_lie_under_the_library_folder() {
    assert_eq!(
        steam_install_path("/games/lib/steamapps/appmanifest_440.acf", Some("TF2".to_string())),
        Some(Some("/games/lib/steamapps/common/TF2".to_string()))
    );
    assert_eq!(steam_install_path("/games/lib/steamapps/appmanifest_440.acf", None), Some(None));
    assert_eq!(
        steam_install_path("steamapps/appmanifest_1.acf", Some("X".to_string())),
        Some(Some("steamapps/common/X".to_string()))
    );
    assert_eq!(steam_install_path("/appmanifest_1.acf", Some("X".to_string())), None);
    assert_eq!(steam_install_path("appmanifest_1.acf", Some("X".to_string())), None);
    assert_eq!(steam_install_path("", None), None);
}

#[test]
fn gog_and_legendary_records_may_be_arrays() {
    let info = JsonValue::Array(vec![s("42"), s("Game")]);
    let g = info_game(&info, None).unwrap();
    assert_eq!(g.id, "gog:42");
    assert!(info_game(&JsonValue::Array(vec![s("42")]), None).is_none());
    let doc = obj(vec![("App", JsonValue::Array(vec![JsonValue::Null, s("Title"), s("/p")]))]);
    let games = installed_games(&doc).unwrap();
    assert_eq!(games[0].name, "Title");
    assert_eq!(games[0].install_path.as_deref(), Some("/p"));
    let short = obj(vec![("App", JsonValue::Array(vec![JsonValue::Null, s("Title")]))]);
    assert!(installed_games(&short).is_none());
}
