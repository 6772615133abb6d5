use zegra::models::{add_unique_game, add_unique_games, clone_games, Game, Platform};

#[test]
fn game_ids_are_namespaced_by_platform() {
    let g = Game::new(Platform::Steam, "440".to_string(), "Team Fortress 2".to_string());
    assert_eq!(g.id, "steam:440");
    assert_eq!(g.name, "Team Fortress 2");
    assert!(g.installed);
    assert_eq!(g.install_path, None);
    assert_eq!(g.cover_url, None);
    assert_eq!(Game::new(Platform::Gamejolt, "x".to_string(), "X".to_string()).id, "gamejolt:x");
}

#[test]
fn platform_names() {
    assert_eq!(Platform::Steam.as_str(), "steam");
    assert_eq!(Platform::Gog.as_str(), "gog");
    assert_eq!(Platform::Epic.as_str(), "epic");
    assert_eq!(Platform::Itchio.as_str(), "itchio");
    assert_eq!(Platform::Gamejolt.as_str(), "gamejolt");
}

#[test]
fn builders_set_one_field() {
    let g = Game::new(Platform::Gog, "1".to_string(), "A".to_string())
        .with_install_path("/games/a".to_string())
        .with_cover_url("https://c/a.jpg".to_string());
    assert_eq!(g.install_path.as_deref(), Some("/games/a"));
    assert_eq!(g.cover_url.as_deref(), Some("https://c/a.jpg"));
    assert_eq!(g.id, "gog:1");
    assert_eq!(g.clone(), g);
}

#[test]
fn first_game_with_an_id_is_kept() {
    let mut games = vec![];
    add_unique_game(&mut games, Game::new(Platform::Epic, "A".to_string(), "First".to_string()));
    add_unique_game(&mut games, Game::new(Platform::Epic, "A".to_string(), "Second".to_string()));
    add_unique_games(
        &mut games,
        vec![
            Game::new(Platform::Epic, "B".to_string(), "B".to_string()),
            Game::new(Platform::Epic, "A".to_string(), "Third".to_string()),
        ],
    );
    assert_eq!(games.len(), 2);
    assert_eq!(games[0].name, "First");
    assert_eq!(games[1].id, "epic:B");
    assert_eq!(clone_games(&games), games);
}

#[test]
fn ids_from_different_platforms_never_collide() {
    let a = Game::new(Platform::Gog, "steam:1".to_string(), "A".to_string());
    let b = Game::new(Platform::Steam, "1".to_string(), "B".to_string());
    assert_ne!(a.id, b.id);
}
