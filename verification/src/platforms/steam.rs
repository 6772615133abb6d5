//! Local Steam library detection.
//!
//! Steam's own client relies entirely on plain-text files that any tool can
//! read: `steamapps/libraryfolders.vdf` lists every library folder the user
//! has configured, and each library folder contains one
//! `appmanifest_<id>.acf` file per installed game. This module reads those
//! files' contents; finding and reading the files is done where the file
//! system is.

use vstd::prelude::*;

use crate::models::{game_id, Game, Platform, SpecGame};
use crate::string_map::StringMap;
use crate::text::{concat3, ends_with, starts_with};
use crate::vdf::{flat_spec, get_spec, parse, parse_spec, SpecVdf};

verus! {

/// Whether a directory entry named `name` is a Steam app manifest.
pub fn is_appmanifest_file_name(name: &str) -> (r: bool)
    ensures
        r == ("appmanifest_"@.len() <= name@.len() && name@.take("appmanifest_"@.len() as int)
            == "appmanifest_"@ && ".acf"@.len() <= name@.len() && name@.skip(
            name@.len() - ".acf"@.len(),
        ) == ".acf"@),
{
    starts_with(name, "appmanifest_") && ends_with(name, ".acf")
}

/// A path segment as `Path::components` yields it: empty segments (from
/// repeated or trailing `/`) and `.` segments are dropped.
pub open spec fn kept_segment(seg: Seq<char>) -> Seq<Seq<char>> {
    if seg.len() == 0 || seg == "."@ {
        Seq::empty()
    } else {
        seq![seg]
    }
}

/// The `/`-separated segments of `p`, as `Path::components` keeps them;
/// `cur` is the segment read so far.
pub open spec fn path_segments(p: Seq<char>, cur: Seq<char>) -> Seq<Seq<char>>
    decreases p.len(),
{
    if p.len() == 0 {
        kept_segment(cur)
    } else if p[0] == '/' {
        kept_segment(cur) + path_segments(p.drop_first(), Seq::empty())
    } else {
        path_segments(p.drop_first(), cur.push(p[0]))
    }
}

/// The components of a path: `/` for a root, `.` for a leading current
/// directory of a relative path, then its segments (`..` kept as it is).
pub open spec fn path_components(p: Seq<char>) -> Seq<Seq<char>> {
    let rooted = p.len() > 0 && p[0] == '/';
    let cur_dir = !rooted && p.len() > 0 && p[0] == '.' && (p.len() == 1 || p[1] == '/');
    (if rooted {
        seq!["/"@]
    } else if cur_dir {
        seq!["."@]
    } else {
        Seq::empty()
    }) + path_segments(p, Seq::empty())
}

/// A path whose components read the same on every platform: no `\`, no
/// `:` (so no drive or other prefix) and no leading `//`.
pub open spec fn is_plain_path(p: Seq<char>) -> bool {
    &&& forall|k: int| 0 <= k < p.len() ==> #[trigger] p[k] != '\\' && p[k] != ':'
    &&& !(p.len() >= 2 && p[0] == '/' && p[1] == '/')
}

/// Whether two paths name the same place: they have the same components.
pub open spec fn same_place(a: Seq<char>, b: Seq<char>) -> bool {
    path_components(a) == path_components(b)
}

/// Whether `c` separates path segments on some platform (`/` everywhere,
/// `\` on Windows).
pub open spec fn is_any_separator(c: char) -> bool {
    c == '/' || c == '\\'
}

/// The segments of `p` split at every `/` and `\`, ASCII letters lowered,
/// with empty and `.` segments dropped; `cur` is the segment read so far.
pub open spec fn key_segments(p: Seq<char>, cur: Seq<char>) -> Seq<Seq<char>>
    decreases p.len(),
{
    if p.len() == 0 {
        kept_segment(cur)
    } else if is_any_separator(p[0]) {
        kept_segment(cur) + key_segments(p.drop_first(), Seq::empty())
    } else {
        key_segments(p.drop_first(), cur.push(crate::text::ascii_lower(p[0])))
    }
}

/// A key that two paths naming the same place share on every platform:
/// their segments under either separator, ignoring ASCII case and `.`
/// segments. Paths with different keys name different places everywhere.
pub open spec fn path_key(p: Seq<char>) -> Seq<Seq<char>> {
    key_segments(p, Seq::empty())
}

/// Whether two paths name the same location.
///
/// Trusted: `Path`'s `==`, which std documents as comparing the paths'
/// components (`Path::components`: repeated separators and `.` segments
/// other than a leading one are ignored, a trailing `/` is normalised away).
/// The contract claims that a path equals itself; that equal paths have
/// the same `path_key` on any platform (components are compared exactly, a
/// Windows drive letter regardless of case, and every component lies
/// between separators that the key splits at); and for plain paths
/// (`is_plain_path`) that the result is whether the components agree. For
/// other paths it says nothing more: there `\` and prefixes such as `C:`
/// split differently on different platforms.
#[verifier::external_body]
fn paths_equal(a: &str, b: &str) -> (r: bool)
    ensures
        a@ == b@ ==> r,
        r ==> path_key(a@) == path_key(b@),
        is_plain_path(a@) && is_plain_path(b@) ==> (r == same_place(a@, b@)),
{
    std::path::Path::new(a) == std::path::Path::new(b)
}

/// Whether `p` names the same place as one of the paths in `kept`.
pub open spec fn names_kept_place(kept: Seq<Seq<char>>, p: Seq<char>) -> bool {
    exists|k: int| 0 <= k < kept.len() && #[trigger] same_place(kept[k], p)
}

/// The library folders kept from `root` and the candidate paths `cands`:
/// `root` first, then each candidate in order unless it names the same
/// place as one already kept.
pub open spec fn kept_folders(root: Seq<char>, cands: Seq<Seq<char>>) -> Seq<Seq<char>>
    decreases cands.len(),
{
    if cands.len() == 0 {
        seq![root]
    } else {
        let prev = kept_folders(root, cands.drop_last());
        if names_kept_place(prev, cands.last()) {
            prev
        } else {
            prev.push(cands.last())
        }
    }
}

/// The library paths that `libraryfolders.vdf` lists: the string `path` of
/// each entry under `libraryfolders`, in order.
pub open spec fn listed_paths(es: Seq<(Seq<char>, SpecVdf)>, i: int) -> Seq<Seq<char>>
    decreases es.len() - i,
{
    if i < 0 || i >= es.len() {
        Seq::empty()
    } else {
        let rest = listed_paths(es, i + 1);
        match get_spec(es[i].1, "path"@) {
            Some(SpecVdf::Str(p)) => seq![p] + rest,
            _ => rest,
        }
    }
}

/// The paths that the contents of a `libraryfolders.vdf` list (none when
/// the contents do not parse or have no `libraryfolders` object).
pub open spec fn library_paths_spec(contents: Seq<char>) -> Seq<Seq<char>> {
    match parse_spec(contents) {
        Ok(root) => match get_spec(root, "libraryfolders"@) {
            Some(SpecVdf::Obj(es)) => listed_paths(es, 0),
            _ => Seq::empty(),
        },
        Err(_) => Seq::empty(),
    }
}

/// Every library path that a `libraryfolders.vdf` lists, in order.
pub fn library_paths(contents: &str) -> (r: Vec<String>)
    ensures
        crate::urls::strings_view(r@) == library_paths_spec(contents@),
{
    let mut out: Vec<String> = Vec::new();
    let root = match parse(contents) {
        Ok(root) => root,
        Err(_) => {
            assert(crate::urls::strings_view(out@) =~= Seq::<Seq<char>>::empty());
            return out;
        },
    };
    let folders = match root.get("libraryfolders") {
        Some(f) => f,
        None => {
            assert(crate::urls::strings_view(out@) =~= Seq::<Seq<char>>::empty());
            return out;
        },
    };
    let entries = match folders {
        crate::vdf::VdfValue::Obj(entries) => entries,
        _ => {
            assert(crate::urls::strings_view(out@) =~= Seq::<Seq<char>>::empty());
            return out;
        },
    };
    proof {
        crate::vdf::lemma_obj_view(entries);
    }
    let ghost es = crate::vdf::entries_view(entries@);
    let mut i: usize = 0;
    assert(crate::urls::strings_view(out@) + listed_paths(es, 0) =~= listed_paths(es, 0));
    while i < entries.len()
        invariant
            i <= entries@.len(),
            es == crate::vdf::entries_view(entries@),
            listed_paths(es, 0) == crate::urls::strings_view(out@) + listed_paths(es, i as int),
        decreases entries.len() - i,
    {
        let ghost before = crate::urls::strings_view(out@);
        assert(es[i as int].1 == entries@[i as int].1@);
        if let Some(v) = entries[i].1.get("path") {
            if let Some(p) = v.as_str() {
                let ps = p.to_owned();
                let ghost pv = ps@;
                out.push(ps);
                assert(crate::urls::strings_view(out@) =~= before.push(pv));
                assert(before + (seq![pv] + listed_paths(es, i + 1)) =~= before.push(pv)
                    + listed_paths(es, i + 1));
            }
        }
        i = i + 1;
    }
    assert(crate::urls::strings_view(out@) + Seq::<Seq<char>>::empty() =~= crate::urls::strings_view(out@));
    out
}

/// Whether a path with `p`'s key is among `kept`: every listed library is
/// kept unless a kept one may name the same place.
pub open spec fn key_is_kept(kept: Seq<String>, p: Seq<char>) -> bool {
    exists|k: int| 0 <= k < kept.len() && #[trigger] path_key(kept[k]@) == path_key(p)
}

/// The paths that `vdf_contents` lists, none when there are no contents.
pub open spec fn listed_library_paths(vdf_contents: Option<&str>) -> Seq<Seq<char>> {
    match vdf_contents {
        Some(c) => library_paths_spec(c@),
        None => Seq::empty(),
    }
}

/// Every library folder of a Steam install: `steam_root` itself first
/// (Steam always treats its own install directory as the first library),
/// then each path `libraryfolders.vdf` lists, skipping any that names the
/// same location as one already kept. `vdf_contents` is `None` when the file
/// could not be read.
pub fn library_folders(steam_root: &str, vdf_contents: Option<&str>) -> (r: Vec<String>)
    ensures
        r@.len() >= 1,
        r@[0]@ == steam_root@,
        forall|k: int|
            1 <= k < r@.len() ==> listed_library_paths(vdf_contents).contains(#[trigger] r@[k]@),
        forall|a: int, b: int| 0 <= a < b < r@.len() ==> #[trigger] r@[a]@ != #[trigger] r@[b]@,
        is_plain_path(steam_root@) && (forall|k: int|
            0 <= k < listed_library_paths(vdf_contents).len() ==> is_plain_path(
                #[trigger] listed_library_paths(vdf_contents)[k],
            )) ==> crate::urls::strings_view(r@) == kept_folders(
            steam_root@,
            listed_library_paths(vdf_contents),
        ),
        forall|i: int|
            0 <= i < listed_library_paths(vdf_contents).len() ==> key_is_kept(
                r@,
                #[trigger] listed_library_paths(vdf_contents)[i],
            ),
{
    let mut libs: Vec<String> = Vec::new();
    libs.push(steam_root.to_owned());
    let contents = match vdf_contents {
        Some(c) => c,
        None => {
            assert(crate::urls::strings_view(libs@) =~= seq![steam_root@]);
            return libs;
        },
    };
    let candidates = library_paths(contents);
    let ghost cands = library_paths_spec(contents@);
    let ghost plain = is_plain_path(steam_root@) && (forall|k: int|
        0 <= k < cands.len() ==> is_plain_path(#[trigger] cands[k]));
    let mut i: usize = 0;
    assert(crate::urls::strings_view(libs@) =~= seq![steam_root@]);
    assert(cands.take(0) =~= Seq::<Seq<char>>::empty());
    while i < candidates.len()
        invariant
            i <= candidates@.len(),
            crate::urls::strings_view(candidates@) == cands,
            cands == library_paths_spec(contents@),
            vdf_contents == Some(contents),
            plain == (is_plain_path(steam_root@) && (forall|k: int|
                0 <= k < cands.len() ==> is_plain_path(#[trigger] cands[k]))),
            libs@.len() >= 1,
            libs@[0]@ == steam_root@,
            forall|k: int| 1 <= k < libs@.len() ==> cands.contains(#[trigger] libs@[k]@),
            forall|a: int, b: int|
                0 <= a < b < libs@.len() ==> #[trigger] libs@[a]@ != #[trigger] libs@[b]@,
            plain ==> crate::urls::strings_view(libs@) == kept_folders(
                steam_root@,
                cands.take(i as int),
            ),
            forall|q: int| 0 <= q < i ==> key_is_kept(libs@, #[trigger] cands[q]),
        decreases candidates.len() - i,
    {
        let p = &candidates[i];
        assert(cands[i as int] == p@);
        let mut seen = false;
        let mut j: usize = 0;
        while j < libs.len()
            invariant
                j <= libs@.len(),
                i < cands.len(),
                cands[i as int] == p@,
                plain == (is_plain_path(steam_root@) && (forall|k: int|
                    0 <= k < cands.len() ==> is_plain_path(#[trigger] cands[k]))),
                libs@.len() >= 1,
                libs@[0]@ == steam_root@,
                forall|k: int| 1 <= k < libs@.len() ==> cands.contains(#[trigger] libs@[k]@),
                !seen ==> forall|k: int| 0 <= k < j ==> #[trigger] libs@[k]@ != p@,
                plain ==> (seen <==> exists|k: int|
                    0 <= k < j && #[trigger] same_place(libs@[k]@, p@)),
                seen ==> exists|k: int| 0 <= k < j && #[trigger] path_key(libs@[k]@) == path_key(p@),
            decreases libs.len() - j,
        {
            let eq = paths_equal(libs[j].as_str(), p.as_str());
            proof {
                if plain {
                    assert(is_plain_path(p@));
                    if j == 0 {
                        assert(is_plain_path(libs@[j as int]@));
                    } else {
                        assert(cands.contains(libs@[j as int]@));
                        let w = choose|w: int| 0 <= w < cands.len() && cands[w] == libs@[j as int]@;
                        assert(is_plain_path(cands[w]));
                    }
                    assert(eq == same_place(libs@[j as int]@, p@));
                }
            }
            if eq {
                assert(path_key(libs@[j as int]@) == path_key(p@));
                seen = true;
            }
            j = j + 1;
        }
        let ghost before = libs@;
        proof {
            assert(cands.take(i + 1).drop_last() =~= cands.take(i as int));
            assert(cands.take(i + 1).last() == p@);
            if plain {
                let prev = crate::urls::strings_view(before);
                assert(prev.len() == before.len());
                assert(forall|k: int| 0 <= k < before.len() ==> #[trigger] prev[k] == before[k]@);
                if seen {
                    let k = choose|k: int| 0 <= k < j && #[trigger] same_place(libs@[k]@, p@);
                    assert(same_place(prev[k], p@));
                }
                if names_kept_place(prev, p@) {
                    let k = choose|k: int| 0 <= k < prev.len() && #[trigger] same_place(prev[k], p@);
                    assert(same_place(libs@[k]@, p@));
                }
                assert(names_kept_place(prev, p@) == seen);
            }
        }
        if !seen {
            libs.push(p.clone());
            assert forall|a: int, b: int| 0 <= a < b < libs@.len() implies #[trigger] libs@[a]@
                != #[trigger] libs@[b]@ by {
                if b < before.len() {
                    assert(before[a]@ != before[b]@);
                } else {
                    assert(libs@[b]@ == p@);
                }
            }
            assert forall|k: int| 1 <= k < libs@.len() implies cands.contains(
                #[trigger] libs@[k]@,
            ) by {
                if k < before.len() {
                    assert(libs@[k] == before[k]);
                } else {
                    assert(cands[i as int] == libs@[k]@);
                }
            }
            assert(crate::urls::strings_view(libs@) =~= crate::urls::strings_view(before).push(
                p@,
            ));
        }
        proof {
            assert forall|q: int| 0 <= q < i + 1 implies key_is_kept(libs@, #[trigger] cands[q]) by {
                if q < i {
                    let k = choose|k: int|
                        0 <= k < before.len() && #[trigger] path_key(before[k]@) == path_key(cands[q]);
                    assert(libs@[k] == before[k]);
                    assert(path_key(libs@[k]@) == path_key(cands[q]));
                } else if seen {
                    let k = choose|k: int|
                        0 <= k < j && #[trigger] path_key(libs@[k]@) == path_key(p@);
                    assert(path_key(libs@[k]@) == path_key(cands[q]));
                } else {
                    let k = libs@.len() - 1;
                    assert(libs@[k]@ == p@);
                    assert(path_key(libs@[k]@) == path_key(cands[q]));
                }
            }
        }
        i = i + 1;
    }
    assert(cands.take(i as int) =~= cands);
    libs
}

/// The fields of an app manifest: `appid`, `name` and, if present,
/// `installdir`, read from the string children of its `AppState` object.
pub open spec fn appmanifest_spec(contents: Seq<char>) -> Option<
    (Seq<char>, Seq<char>, Option<Seq<char>>),
> {
    match parse_spec(contents) {
        Ok(root) => match get_spec(root, "AppState"@) {
            Some(app) => {
                let m = match app {
                    SpecVdf::Obj(es) => flat_spec(es),
                    SpecVdf::Str(_) => Map::empty(),
                };
                if m.dom().contains("appid"@) && m.dom().contains("name"@) {
                    Some(
                        (
                            m["appid"@],
                            m["name"@],
                            if m.dom().contains("installdir"@) {
                                Some(m["installdir"@])
                            } else {
                                None
                            },
                        ),
                    )
                } else {
                    None
                }
            },
            None => None,
        },
        Err(_) => None,
    }
}

/// Reads the `appid`, `name` and optional `installdir` of an
/// `appmanifest_<id>.acf` file's contents.
pub fn appmanifest_fields(contents: &str) -> (r: Option<(String, String, Option<String>)>)
    ensures
        match appmanifest_spec(contents@) {
            Some((a, n, d)) => r matches Some((x, y, z)) && x@ == a && y@ == n
                && crate::models::opt_str(z) == d,
            None => r is None,
        },
{
    let root = match parse(contents) {
        Ok(r) => r,
        Err(_) => {
            return None;
        },
    };
    let app_state = match root.get("AppState") {
        Some(a) => a,
        None => {
            return None;
        },
    };
    let fields: StringMap = app_state.flat_strings();
    let appid = match fields.get("appid") {
        Some(a) => a.clone(),
        None => {
            return None;
        },
    };
    let name = match fields.get("name") {
        Some(n) => n.clone(),
        None => {
            return None;
        },
    };
    let installdir = match fields.get("installdir") {
        Some(d) => Some(d.clone()),
        None => None,
    };
    Some((appid, name, installdir))
}

/// Whether `p` starts at the root.
pub open spec fn is_rooted_path(p: Seq<char>) -> bool {
    p.len() > 0 && p[0] == '/'
}

/// The components of a path's parent, as `Path::parent` gives it: the last
/// component dropped; none when the path is empty or only a root.
pub open spec fn parent_components(c: Seq<Seq<char>>) -> Option<Seq<Seq<char>>> {
    if c.len() == 0 || c == seq!["/"@] {
        None
    } else {
        Some(c.drop_last())
    }
}

/// The components of a path with components `c` joined with `part`, as
/// `Path::join` gives them: a rooted `part` replaces the path; an empty path
/// becomes `part`; otherwise `part`'s segments are added.
pub open spec fn joined_components(c: Seq<Seq<char>>, part: Seq<char>) -> Seq<Seq<char>> {
    if is_rooted_path(part) || c.len() == 0 {
        path_components(part)
    } else {
        c + path_segments(part, Seq::empty())
    }
}

/// The parent of a path.
///
/// Trusted: `Path::parent`, which drops the last component and has none
/// for an empty path or a root. The contract claims this for plain paths
/// (`is_plain_path`), where the parent is a plain prefix of the path; of
/// other paths it says nothing.
#[verifier::external_body]
fn path_parent(p: &str) -> (r: Option<String>)
    ensures
        is_plain_path(p@) ==> match parent_components(path_components(p@)) {
            None => r is None,
            Some(c) => r matches Some(q) && is_plain_path(q@) && path_components(q@) == c,
        },
{
    std::path::Path::new(p).parent().map(|q| q.to_string_lossy().into_owned())
}

/// `base` joined with `part`.
///
/// Trusted: `Path::join`, which replaces the path with a rooted `part`, and
/// otherwise appends `part`, with a separator when `base` is not empty and
/// does not end in one. The separator is the platform's, so the contract
/// speaks only of a plain result: then its components are those that
/// `joined_components` gives, and for a relative `part` both `base` and
/// `part` (a prefix and a suffix of the result) are plain.
#[verifier::external_body]
fn path_join(base: &str, part: &str) -> (r: String)
    ensures
        is_plain_path(r@) && is_plain_path(part@) && is_rooted_path(part@) ==> path_components(r@)
            == path_components(part@),
        is_plain_path(r@) && !is_rooted_path(part@) ==> is_plain_path(base@) && is_plain_path(
            part@,
        ) && path_components(r@) == joined_components(path_components(base@), part@),
{
    std::path::Path::new(base).join(part).to_string_lossy().into_owned()
}

/// The components of the library folder an app manifest lies in: the
/// manifest lies in `<library>/steamapps`.
pub open spec fn manifest_library_root(manifest: Seq<char>) -> Option<Seq<Seq<char>>> {
    match parent_components(path_components(manifest)) {
        None => None,
        Some(c) => parent_components(c),
    }
}

/// The components of a game's install folder `<library>/steamapps/common/<dir>`.
pub open spec fn install_components(root: Seq<Seq<char>>, dir: Seq<char>) -> Seq<Seq<char>> {
    joined_components(
        joined_components(joined_components(root, "steamapps"@), "common"@),
        dir,
    )
}

/// The install path of a game whose manifest is at `manifest_path`:
/// `<library>/steamapps/common/<installdir>`, where the manifest lies in
/// `<library>/steamapps`. `None` when the manifest's path has no library
/// folder above it; `Some(None)` when the manifest names no install folder.
pub fn steam_install_path(manifest_path: &str, installdir: Option<String>) -> (r: Option<
    Option<String>,
>)
    ensures
        is_plain_path(manifest_path@) ==> (r is None <==> manifest_library_root(manifest_path@) is None),
        r matches Some(x) ==> (x is None <==> installdir is None),
        match r {
            Some(Some(p)) => is_plain_path(manifest_path@) && is_plain_path(p@) ==> match (
                installdir,
                manifest_library_root(manifest_path@),
            ) {
                (Some(d), Some(root)) => is_plain_path(d@) ==> path_components(p@)
                    == install_components(root, d@),
                _ => false,
            },
            _ => true,
        },
{
    let library = match path_parent(manifest_path) {
        Some(l) => l,
        None => {
            return None;
        },
    };
    let root = match path_parent(library.as_str()) {
        Some(r) => r,
        None => {
            return None;
        },
    };
    match installdir {
        None => Some(None),
        Some(dir) => {
            let apps = path_join(root.as_str(), "steamapps");
            let common = path_join(apps.as_str(), "common");
            let full = path_join(common.as_str(), dir.as_str());
            proof {
                reveal_strlit("steamapps");
                reveal_strlit("common");
                assert(!is_rooted_path("steamapps"@));
                assert(!is_rooted_path("common"@));
            }
            Some(Some(full))
        },
    }
}

/// The Steam CDN address of a game's library cover image.
pub open spec fn cover_url_spec(appid: Seq<char>) -> Seq<char> {
    "https://cdn.cloudflare.steamstatic.com/steam/apps/"@ + appid + "/library_600x900.jpg"@
}

/// The game an app manifest describes, installed at `install_path` (the
/// library's `steamapps/common/<installdir>`, when the manifest names one),
/// with its cover image from Steam's CDN.
pub fn steam_game(appid: String, name: String, install_path: Option<String>) -> (g: Game)
    ensures
        g@ == (SpecGame {
            id: game_id(Platform::Steam, appid@),
            name: name@,
            platform: Platform::Steam,
            install_path: crate::models::opt_str(install_path),
            cover_url: Some(cover_url_spec(appid@)),
            installed: true,
        }),
{
    let cover = concat3(
        "https://cdn.cloudflare.steamstatic.com/steam/apps/",
        appid.as_str(),
        "/library_600x900.jpg",
    );
    let mut game = Game::new(Platform::Steam, appid, name);
    if let Some(p) = install_path {
        game = game.with_install_path(p);
    }
    game.with_cover_url(cover)
}

/// A Steam game made from a manifest is the installed Steam game with id
/// `steam:` followed by its app id, with its cover taken from Steam's CDN
/// under that same app id.
pub proof fn lemma_steam_game_is_keyed_by_app_id(appid: Seq<char>)
    ensures
        game_id(Platform::Steam, appid) == "steam:"@ + appid,
        cover_url_spec(appid) == "https://cdn.cloudflare.steamstatic.com/steam/apps/"@ + appid
            + "/library_600x900.jpg"@,
{
    crate::models::lemma_game_id_prefixes(appid);
}

} // verus!
