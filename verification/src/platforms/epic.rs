//! Local Epic Games Store library detection.
//!
//! Epic has no official Linux client and no public "list my installed games"
//! API. The de-facto standard is the open-source Legendary CLI, whose
//! install-state format is also used by Heroic Games Launcher: an
//! `installed.json` file mapping app name to metadata. The candidate files
//! are read where the file system is; this module decides what games a file
//! lists.

use vstd::prelude::*;

use crate::json::{element, field, optional_string, read_optional_string, JsonValue};
use crate::models::{game_id, games_view, Game, Platform, SpecGame};

verus! {

/// The `app_name`, `title` and `install_path` of an entry: the members of
/// an object (absent ones are `None`), or the three elements of an array
/// (serde reads a record either way, but from an array it needs every
/// field); `None` for anything else.
pub open spec fn entry_fields(entry: JsonValue) -> Option<
    (Option<JsonValue>, Option<JsonValue>, Option<JsonValue>),
> {
    match entry {
        JsonValue::Object(_) => Some(
            (field(entry, "app_name"@), field(entry, "title"@), field(entry, "install_path"@)),
        ),
        JsonValue::Array(a) => if a@.len() == 3 {
            Some((element(entry, 0), element(entry, 1), element(entry, 2)))
        } else {
            None
        },
        _ => None,
    }
}

/// The game an entry of `installed.json` describes, keyed by its app name:
/// the entry must be a record with a string `title`; `app_name` and
/// `install_path` may be absent (from an object) or `null`, and otherwise
/// must be strings.
pub open spec fn entry_game_spec(app_name: Seq<char>, entry: JsonValue) -> Option<SpecGame> {
    match entry_fields(entry) {
        Some((app, Some(JsonValue::Str(title)), path_field)) => match optional_string(app) {
            Err(_) => None,
            Ok(_) => match optional_string(path_field) {
                Err(_) => None,
                Ok(path) => Some(
                    SpecGame {
                        id: game_id(Platform::Epic, app_name),
                        name: title@,
                        platform: Platform::Epic,
                        install_path: path,
                        cover_url: None,
                        installed: true,
                    },
                ),
            },
        },
        _ => None,
    }
}

/// The games of the entries `members[i..]`, or `None` if any entry is
/// malformed (the whole file is then skipped).
pub open spec fn entries_games(members: Seq<(String, JsonValue)>, i: int) -> Option<Seq<SpecGame>>
    decreases members.len() - i,
{
    if i < 0 || i >= members.len() {
        Some(Seq::empty())
    } else {
        match entry_game_spec(members[i].0@, members[i].1) {
            None => None,
            Some(g) => match entries_games(members, i + 1) {
                None => None,
                Some(rest) => Some(seq![g] + rest),
            },
        }
    }
}

/// The games an `installed.json` document lists, in order: `None` unless it
/// is an object whose every entry is well formed.
pub open spec fn installed_games_spec(doc: JsonValue) -> Option<Seq<SpecGame>> {
    match doc {
        JsonValue::Object(members) => entries_games(members@, 0),
        _ => None,
    }
}

fn entry_game(app_name: &String, entry: &JsonValue) -> (r: Option<Game>)
    ensures
        match entry_game_spec(app_name@, *entry) {
            Some(g) => r matches Some(x) && x@ == g,
            None => r is None,
        },
{
    let (app_field, title_field, path_field) = match entry {
        JsonValue::Object(_) => (entry.get("app_name"), entry.get("title"), entry.get("install_path")),
        JsonValue::Array(a) => {
            if a.len() != 3 {
                return None;
            }
            (entry.at(0), entry.at(1), entry.at(2))
        },
        _ => {
            return None;
        },
    };
    let title = match title_field {
        Some(JsonValue::Str(t)) => t.clone(),
        _ => {
            return None;
        },
    };
    if read_optional_string(app_field).is_err() {
        return None;
    }
    let path = match read_optional_string(path_field) {
        Err(_) => {
            return None;
        },
        Ok(p) => p,
    };
    let game = Game::new(Platform::Epic, app_name.clone(), title);
    match path {
        Some(p) => Some(game.with_install_path(p)),
        None => Some(game),
    }
}

/// `acc` put in front of the games that `r` found.
pub open spec fn prepend_some(acc: Seq<SpecGame>, r: Option<Seq<SpecGame>>) -> Option<Seq<SpecGame>> {
    match r {
        Some(rest) => Some(acc + rest),
        None => None,
    }
}

/// Reads the games an `installed.json` document lists.
pub fn installed_games(doc: &JsonValue) -> (r: Option<Vec<Game>>)
    ensures
        match installed_games_spec(*doc) {
            Some(gs) => r matches Some(x) && games_view(x@) == gs,
            None => r is None,
        },
{
    let members = match doc {
        JsonValue::Object(m) => m,
        _ => {
            return None;
        },
    };
    let mut out: Vec<Game> = Vec::new();
    assert(games_view(out@) + Seq::<SpecGame>::empty() =~= games_view(out@));
    let mut i: usize = 0;
    while i < members.len()
        invariant
            i <= members@.len(),
            installed_games_spec(*doc) == prepend_some(
                games_view(out@),
                entries_games(members@, i as int),
            ),
        decreases members.len() - i,
    {
        match entry_game(&members[i].0, &members[i].1) {
            None => {
                return None;
            },
            Some(g) => {
                let ghost before = games_view(out@);
                let ghost gv = g@;
                out.push(g);
                proof {
                    assert(games_view(out@) =~= before.push(gv));
                    if let Some(rest) = entries_games(members@, i + 1) {
                        assert(before + (seq![gv] + rest) =~= before.push(gv) + rest);
                    }
                }
            },
        }
        i = i + 1;
    }
    assert(games_view(out@) + Seq::<SpecGame>::empty() =~= games_view(out@));
    Some(out)
}

/// Each game read from `installed.json` is keyed by its entry's name: its id
/// is `epic:` followed by that key, whatever the entry's title; it is an
/// installed Epic game; and the games come one per entry, in order.
pub proof fn lemma_epic_games_are_keyed_by_app_name(doc: JsonValue)
    ensures
        installed_games_spec(doc) matches Some(gs) ==> doc matches JsonValue::Object(members) && gs.len()
            == members@.len() && forall|i: int|
            0 <= i < gs.len() ==> {
                &&& (#[trigger] gs[i]).id == "epic:"@ + members@[i].0@
                &&& gs[i].platform == Platform::Epic
                &&& gs[i].installed
                &&& entry_fields(members@[i].1) matches Some((_, Some(JsonValue::Str(t)), _))
                    && gs[i].name == t@
            },
{
    if let JsonValue::Object(members) = doc {
        lemma_entries_games_keyed(members@, 0);
    }
}

proof fn lemma_entries_games_keyed(members: Seq<(String, JsonValue)>, i: int)
    requires
        0 <= i <= members.len(),
    ensures
        entries_games(members, i) matches Some(gs) ==> gs.len() == members.len() - i && forall|k: int|
            0 <= k < gs.len() ==> {
                &&& (#[trigger] gs[k]).id == "epic:"@ + members[i + k].0@
                &&& gs[k].platform == Platform::Epic
                &&& gs[k].installed
                &&& entry_fields(members[i + k].1) matches Some((_, Some(JsonValue::Str(t)), _))
                    && gs[k].name == t@
            },
    decreases members.len() - i,
{
    reveal_strlit("epic");
    reveal_strlit(":");
    reveal_strlit("epic:");
    if i < members.len() {
        lemma_entries_games_keyed(members, i + 1);
        if let Some(g) = entry_game_spec(members[i].0@, members[i].1) {
            if let Some(rest) = entries_games(members, i + 1) {
                let gs = seq![g] + rest;
                assert("epic"@ + ":"@ =~= "epic:"@);
                assert forall|k: int| 0 <= k < gs.len() implies {
                    &&& (#[trigger] gs[k]).id == "epic:"@ + members[i + k].0@
                    &&& gs[k].platform == Platform::Epic
                    &&& gs[k].installed
                    &&& entry_fields(members[i + k].1) matches Some((_, Some(JsonValue::Str(t)), _))
                        && gs[k].name == t@
                } by {
                    if k == 0 {
                        assert(g.id == "epic"@ + ":"@ + members[i].0@);
                        assert("epic"@ + ":"@ + members[i].0@ =~= "epic:"@ + members[i].0@);
                    } else {
                        assert(gs[k] == rest[k - 1]);
                        assert(i + 1 + (k - 1) == i + k);
                    }
                }
            }
        }
    }
}

} // verus!
