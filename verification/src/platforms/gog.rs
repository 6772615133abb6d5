//! Local GOG library detection.
//!
//! GOG's Linux and Windows installers drop a `goggame-<id>.info` JSON file
//! next to every installed game (the same file GOG Galaxy itself reads).
//! Candidate install roots are walked for these files where the file system
//! is; this module decides which files are info files and what game each
//! describes.

use vstd::prelude::*;

use crate::json::{element, field, JsonValue};
use crate::models::{game_id, opt_str, Game, Platform, SpecGame};
use crate::text::{ends_with, starts_with};

verus! {

/// How deep under each root info files are looked for.
pub const MAX_DEPTH: usize = 3;

/// Whether a file named `name` is a GOG info file.
pub fn is_info_file_name(name: &str) -> (r: bool)
    ensures
        r == ("goggame-"@.len() <= name@.len() && name@.take("goggame-"@.len() as int)
            == "goggame-"@ && ".info"@.len() <= name@.len() && name@.skip(
            name@.len() - ".info"@.len(),
        ) == ".info"@),
{
    starts_with(name, "goggame-") && ends_with(name, ".info")
}

/// The `gameId` and `name` of an info file: the members of an object, or
/// the two elements of an array (serde reads a record either way); `None`
/// for anything else.
pub open spec fn info_fields(info: JsonValue) -> Option<(Option<JsonValue>, Option<JsonValue>)> {
    match info {
        JsonValue::Object(_) => Some((field(info, "gameId"@), field(info, "name"@))),
        JsonValue::Array(a) => if a@.len() == 2 {
            Some((element(info, 0), element(info, 1)))
        } else {
            None
        },
        _ => None,
    }
}

/// The game an info file describes: its `gameId` and `name` strings
/// (anything else in the file is ignored), installed in the info file's
/// directory. `None` when the file is not such a record.
pub open spec fn info_game_spec(info: JsonValue, install_path: Option<Seq<char>>) -> Option<SpecGame> {
    match info_fields(info) {
        Some((Some(JsonValue::Str(id)), Some(JsonValue::Str(name)))) => Some(
            SpecGame {
                id: game_id(Platform::Gog, id@),
                name: name@,
                platform: Platform::Gog,
                install_path: install_path,
                cover_url: None,
                installed: true,
            },
        ),
        _ => None,
    }
}

/// Reads the game a `goggame-<id>.info` file describes.
pub fn info_game(info: &JsonValue, install_path: Option<String>) -> (r: Option<Game>)
    ensures
        match info_game_spec(*info, opt_str(install_path)) {
            Some(g) => r matches Some(x) && x@ == g,
            None => r is None,
        },
{
    let (id_field, name_field) = match info {
        JsonValue::Object(_) => (info.get("gameId"), info.get("name")),
        JsonValue::Array(a) => {
            if a.len() != 2 {
                return None;
            }
            (info.at(0), info.at(1))
        },
        _ => {
            return None;
        },
    };
    let id = match id_field {
        Some(JsonValue::Str(s)) => s.clone(),
        _ => {
            return None;
        },
    };
    let name = match name_field {
        Some(JsonValue::Str(s)) => s.clone(),
        _ => {
            return None;
        },
    };
    let game = Game::new(Platform::Gog, id, name);
    match install_path {
        Some(p) => Some(game.with_install_path(p)),
        None => Some(game),
    }
}

/// An info file's game is the GOG game with id `gog:` followed by the file's
/// `gameId`, named by its `name`, installed where the file lies; and a file
/// without a string `gameId` and a string `name` describes none.
pub proof fn lemma_info_game_reads_its_fields(info: JsonValue, install_path: Option<Seq<char>>)
    ensures
        info_game_spec(info, install_path) is Some <==> info_fields(info) matches Some(
            (Some(JsonValue::Str(_)), Some(JsonValue::Str(_))),
        ),
        info_game_spec(info, install_path) matches Some(g) ==> info_fields(info) matches Some(
            (Some(JsonValue::Str(id)), Some(JsonValue::Str(name))),
        ) && g.id == "gog:"@ + id@ && g.name == name@ && g.platform == Platform::Gog
            && g.install_path == install_path && g.installed,
{
    if let Some((Some(JsonValue::Str(id)), Some(JsonValue::Str(_)))) = info_fields(info) {
        crate::models::lemma_game_id_prefixes(id@);
    }
}

} // verus!
