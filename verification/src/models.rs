//! The data the launcher shows: platforms, games, and the outcome of a
//! library scan.

use vstd::prelude::*;

use crate::text::concat3;

verus! {

/// A game platform Zegra knows about.
#[derive(Debug, Clone, Copy, PartialEq, Eq, Structural, Hash)]
pub enum Platform {
    Steam,
    Gog,
    Epic,
    Itchio,
    Gamejolt,
}

impl Platform {
    /// The platform's lower-case name, used in namespaced game ids.
    pub open spec fn name_spec(self) -> Seq<char> {
        match self {
            Platform::Steam => "steam"@,
            Platform::Gog => "gog"@,
            Platform::Epic => "epic"@,
            Platform::Itchio => "itchio"@,
            Platform::Gamejolt => "gamejolt"@,
        }
    }

    /// The platform's lower-case name.
    pub fn as_str(&self) -> (r: &'static str)
        ensures
            r@ == self.name_spec(),
    {
        match self {
            Platform::Steam => "steam",
            Platform::Gog => "gog",
            Platform::Epic => "epic",
            Platform::Itchio => "itchio",
            Platform::Gamejolt => "gamejolt",
        }
    }
}

/// One game in the library.
#[derive(Debug, PartialEq)]
pub struct Game {
    /// Namespaced unique id, e.g. "steam:440"
    pub id: String,
    pub name: String,
    pub platform: Platform,
    pub install_path: Option<String>,
    pub cover_url: Option<String>,
    pub installed: bool,
}

/// The mathematical value of a [`Game`].
pub struct SpecGame {
    pub id: Seq<char>,
    pub name: Seq<char>,
    pub platform: Platform,
    pub install_path: Option<Seq<char>>,
    pub cover_url: Option<Seq<char>>,
    pub installed: bool,
}

/// The view of an optional string.
pub open spec fn opt_str(o: Option<String>) -> Option<Seq<char>> {
    match o {
        Some(s) => Some(s@),
        None => None,
    }
}

impl View for Game {
    type V = SpecGame;

    open spec fn view(&self) -> SpecGame {
        SpecGame {
            id: self.id@,
            name: self.name@,
            platform: self.platform,
            install_path: opt_str(self.install_path),
            cover_url: opt_str(self.cover_url),
            installed: self.installed,
        }
    }
}

/// The views of a list of games.
pub open spec fn games_view(gs: Seq<Game>) -> Seq<SpecGame> {
    gs.map_values(|g: Game| g@)
}

/// Whether some game in `gs` has id `id`.
pub open spec fn has_game_id(gs: Seq<SpecGame>, id: Seq<char>) -> bool {
    exists|i: int| 0 <= i < gs.len() && #[trigger] gs[i].id == id
}

/// No two games in `gs` share an id.
pub open spec fn ids_unique(gs: Seq<SpecGame>) -> bool {
    forall|i: int, j: int| 0 <= i < j < gs.len() ==> #[trigger] gs[i].id != #[trigger] gs[j].id
}

/// `g` added to `gs` unless a game with its id is already there (the first
/// game seen with an id is the one kept).
pub open spec fn add_unique(gs: Seq<SpecGame>, g: SpecGame) -> Seq<SpecGame> {
    if has_game_id(gs, g.id) {
        gs
    } else {
        gs.push(g)
    }
}

/// `new` added one by one to `gs` with [`add_unique`].
pub open spec fn merge_unique(gs: Seq<SpecGame>, new: Seq<SpecGame>) -> Seq<SpecGame>
    decreases new.len(),
{
    if new.len() == 0 {
        gs
    } else {
        add_unique(merge_unique(gs, new.drop_last()), new.last())
    }
}

/// Adds `g` to `games` unless a game with the same id is already there.
pub fn add_unique_game(games: &mut Vec<Game>, g: Game)
    ensures
        games_view(final(games)@) == add_unique(games_view(old(games)@), g@),
{
    let ghost before = games_view(games@);
    let mut i: usize = 0;
    while i < games.len()
        invariant
            i <= games@.len(),
            before == games_view(games@),
            forall|j: int| 0 <= j < i ==> #[trigger] games@[j].id@ != g.id@,
        decreases games.len() - i,
    {
        if crate::text::str_equal(games[i].id.as_str(), g.id.as_str()) {
            assert(before[i as int].id == g.id@);
            return;
        }
        i = i + 1;
    }
    assert(!has_game_id(before, g.id@)) by {
        if has_game_id(before, g.id@) {
            let k = choose|k: int| 0 <= k < before.len() && #[trigger] before[k].id == g.id@;
            assert(games@[k].id@ == g.id@);
        }
    }
    games.push(g);
    assert(games_view(games@) =~= before.push(g@));
}

/// Adds each game of `new`, in order, to `games` unless a game with the same
/// id is already there.
pub fn add_unique_games(games: &mut Vec<Game>, new: Vec<Game>)
    ensures
        games_view(final(games)@) == merge_unique(games_view(old(games)@), games_view(new@)),
{
    let ghost start = games_view(games@);
    let ghost nv = games_view(new@);
    let mut i: usize = 0;
    assert(nv.take(0) =~= Seq::<SpecGame>::empty());
    while i < new.len()
        invariant
            i <= new@.len(),
            nv == games_view(new@),
            games_view(games@) == merge_unique(start, nv.take(i as int)),
        decreases new.len() - i,
    {
        assert(nv.take(i + 1).drop_last() =~= nv.take(i as int));
        add_unique_game(games, new[i].clone());
        i = i + 1;
    }
    assert(nv.take(new.len() as int) =~= nv);
}

/// Adding a game with [`add_unique`] keeps ids unique.
pub proof fn lemma_add_unique_keeps_ids_unique(gs: Seq<SpecGame>, g: SpecGame)
    requires
        ids_unique(gs),
    ensures
        ids_unique(add_unique(gs, g)),
        has_game_id(add_unique(gs, g), g.id),
{
    if !has_game_id(gs, g.id) {
        let r = gs.push(g);
        assert forall|i: int, j: int| 0 <= i < j < r.len() implies #[trigger] r[i].id
            != #[trigger] r[j].id by {
            if j == gs.len() {
                if r[i].id == g.id {
                    assert(gs[i].id == g.id);
                }
            } else {
                assert(gs[i].id != gs[j].id);
            }
        }
        assert(r[gs.len() as int].id == g.id);
    }
}

/// Merging with [`merge_unique`] keeps ids unique, whatever is merged in.
pub proof fn lemma_merge_unique_keeps_ids_unique(gs: Seq<SpecGame>, new: Seq<SpecGame>)
    requires
        ids_unique(gs),
    ensures
        ids_unique(merge_unique(gs, new)),
    decreases new.len(),
{
    if new.len() > 0 {
        lemma_merge_unique_keeps_ids_unique(gs, new.drop_last());
        lemma_add_unique_keeps_ids_unique(merge_unique(gs, new.drop_last()), new.last());
    }
}

/// The namespaced id of a game: the platform's name, a colon, and the
/// platform's own id for it.
pub open spec fn game_id(platform: Platform, platform_id: Seq<char>) -> Seq<char> {
    platform.name_spec() + ":"@ + platform_id
}

proof fn lemma_platform_name(p: Platform)
    ensures
        forall|i: int| 0 <= i < p.name_spec().len() ==> #[trigger] p.name_spec()[i] != ':',
        p.name_spec().len() > 0,
{
    reveal_strlit("steam");
    reveal_strlit("gog");
    reveal_strlit("epic");
    reveal_strlit("itchio");
    reveal_strlit("gamejolt");
}

proof fn lemma_platform_names_distinct(p: Platform, q: Platform)
    requires
        p.name_spec() == q.name_spec(),
    ensures
        p == q,
{
    reveal_strlit("steam");
    reveal_strlit("gog");
    reveal_strlit("epic");
    reveal_strlit("itchio");
    reveal_strlit("gamejolt");
    if p != q {
        let a = p.name_spec();
        let b = q.name_spec();
        assert(a.len() == b.len());
        assert(a[0] != b[0] || a[1] != b[1] || a[2] != b[2]);
    }
}

/// Namespaced ids never collide across platforms: two games share an id
/// only if they come from the same platform with the same platform id.
pub proof fn lemma_game_ids_are_namespaced(p: Platform, a: Seq<char>, q: Platform, b: Seq<char>)
    requires
        game_id(p, a) == game_id(q, b),
    ensures
        p == q,
        a == b,
{
    reveal_strlit(":");
    lemma_platform_name(p);
    lemma_platform_name(q);
    let np = p.name_spec();
    let nq = q.name_spec();
    let s = game_id(p, a);
    assert(s[np.len() as int] == ':');
    assert(s[nq.len() as int] == ':');
    if np.len() < nq.len() {
        assert(s[np.len() as int] == nq[np.len() as int]);
    } else if nq.len() < np.len() {
        assert(s[nq.len() as int] == np[nq.len() as int]);
    }
    assert(np =~= s.take(np.len() as int));
    assert(nq =~= s.take(nq.len() as int));
    lemma_platform_names_distinct(p, q);
    assert(a =~= s.skip(np.len() as int + 1));
    assert(b =~= s.skip(nq.len() as int + 1));
}

fn clone_opt(s: &Option<String>) -> (r: Option<String>)
    ensures
        r == *s,
{
    match s {
        Some(x) => Some(x.clone()),
        None => None,
    }
}

impl Clone for Game {
    fn clone(&self) -> (r: Self)
        ensures
            r == *self,
    {
        Game {
            id: self.id.clone(),
            name: self.name.clone(),
            platform: self.platform,
            install_path: clone_opt(&self.install_path),
            cover_url: clone_opt(&self.cover_url),
            installed: self.installed,
        }
    }
}

impl Game {
    /// A freshly detected, installed game with no install path or cover.
    pub fn new(platform: Platform, platform_id: String, name: String) -> (g: Game)
        ensures
            g.id@ == game_id(platform, platform_id@),
            g.name@ == name@,
            g.platform == platform,
            g.install_path is None,
            g.cover_url is None,
            g.installed,
    {
        Game {
            id: concat3(platform.as_str(), ":", platform_id.as_str()),
            name,
            platform,
            install_path: None,
            cover_url: None,
            installed: true,
        }
    }

    /// The same game with its install path set.
    pub fn with_install_path(self, path: String) -> (g: Game)
        ensures
            g == (Game { install_path: Some(path), ..self }),
    {
        let mut g = self;
        g.install_path = Some(path);
        g
    }

    /// The same game with its cover image URL set.
    pub fn with_cover_url(self, url: String) -> (g: Game)
        ensures
            g == (Game { cover_url: Some(url), ..self }),
    {
        let mut g = self;
        g.cover_url = Some(url);
        g
    }
}

/// Copies of every game in `games`.
pub fn clone_games(games: &Vec<Game>) -> (r: Vec<Game>)
    ensures
        r@ == games@,
{
    let mut r: Vec<Game> = Vec::new();
    let mut i: usize = 0;
    while i < games.len()
        invariant
            i <= games.len(),
            r@ == games@.take(i as int),
        decreases games.len() - i,
    {
        r.push(games[i].clone());
        i = i + 1;
        assert(r@ =~= games@.take(i as int));
    }
    assert(games@.take(games.len() as int) =~= games@);
    r
}

/// Result of attempting to scan a single platform's local/remote library.
#[derive(Debug, Clone, PartialEq)]
pub enum PlatformScanStatus {
    /// Scan ran successfully (may still find zero games).
    Succeeded,
    /// This platform has no viable integration path (documented reason), so it was skipped.
    Unsupported { reason: String },
    /// Scan was attempted but failed (bad config, unreachable, parse error, etc).
    Error { message: String },
}

/// The mathematical value of a [`PlatformScanStatus`].
pub enum SpecScanStatus {
    Succeeded,
    Unsupported(Seq<char>),
    Error(Seq<char>),
}

impl View for PlatformScanStatus {
    type V = SpecScanStatus;

    open spec fn view(&self) -> SpecScanStatus {
        match self {
            PlatformScanStatus::Succeeded => SpecScanStatus::Succeeded,
            PlatformScanStatus::Unsupported { reason } => SpecScanStatus::Unsupported(reason@),
            PlatformScanStatus::Error { message } => SpecScanStatus::Error(message@),
        }
    }
}

/// One platform's part of a library scan.
#[derive(Debug, Clone, PartialEq)]
pub struct PlatformScanResult {
    pub platform: Platform,
    pub status: PlatformScanStatus,
    pub games: Vec<Game>,
}

/// The mathematical value of a [`PlatformScanResult`].
pub struct SpecPlatformResult {
    pub platform: Platform,
    pub status: SpecScanStatus,
    pub games: Seq<SpecGame>,
}

impl View for PlatformScanResult {
    type V = SpecPlatformResult;

    open spec fn view(&self) -> SpecPlatformResult {
        SpecPlatformResult { platform: self.platform, status: self.status@, games: games_view(self.games@) }
    }
}

/// Every game found, and how each platform's scan went.
#[derive(Debug, Clone, PartialEq)]
pub struct LibraryScanResult {
    pub games: Vec<Game>,
    pub platform_results: Vec<PlatformScanResult>,
}

/// The mathematical value of a [`LibraryScanResult`].
pub struct SpecLibrary {
    pub games: Seq<SpecGame>,
    pub platform_results: Seq<SpecPlatformResult>,
}

impl View for LibraryScanResult {
    type V = SpecLibrary;

    open spec fn view(&self) -> SpecLibrary {
        SpecLibrary {
            games: games_view(self.games@),
            platform_results: self.platform_results@.map_values(|r: PlatformScanResult| r@),
        }
    }
}

impl Default for LibraryScanResult {
    fn default() -> (r: Self)
        ensures
            r.games@.len() == 0,
            r.platform_results@.len() == 0,
    {
        LibraryScanResult { games: Vec::new(), platform_results: Vec::new() }
    }
}

/// Whether `new[j]` is the first game in `new` with its id.
pub open spec fn first_with_its_id(new: Seq<SpecGame>, j: int) -> bool {
    forall|j2: int| 0 <= j2 < j ==> #[trigger] new[j2].id != new[j].id
}

/// Whether `g` is a game of `new` that merging into `gs` adds: the first
/// game in `new` with its id, an id that `gs` does not have.
pub open spec fn added_by_merge(gs: Seq<SpecGame>, new: Seq<SpecGame>, g: SpecGame) -> bool {
    exists|j: int|
        0 <= j < new.len() && new[j] == g && !has_game_id(gs, g.id) && #[trigger] first_with_its_id(
            new,
            j,
        )
}

/// What merging keeps: the games already there stay first and unchanged;
/// every merged game's id ends up present; and each game added is the first
/// game in `new` with its id, an id not already there (a later game with
/// the same id is dropped).
pub proof fn lemma_merge_keeps_first_of_each_id(gs: Seq<SpecGame>, new: Seq<SpecGame>)
    ensures
        merge_unique(gs, new).len() >= gs.len(),
        merge_unique(gs, new).take(gs.len() as int) == gs,
        forall|j: int| 0 <= j < new.len() ==> has_game_id(merge_unique(gs, new), #[trigger] new[j].id),
        forall|k: int|
            gs.len() <= k < merge_unique(gs, new).len() ==> added_by_merge(
                gs,
                new,
                #[trigger] merge_unique(gs, new)[k],
            ),
    decreases new.len(),
{
    if new.len() == 0 {
        assert(gs.take(gs.len() as int) =~= gs);
    } else {
        let init = new.drop_last();
        let r = merge_unique(gs, init);
        lemma_merge_keeps_first_of_each_id(gs, init);
        lemma_merge_step(gs, new, r);
    }
}

proof fn lemma_added_extends(gs: Seq<SpecGame>, new: Seq<SpecGame>, x: SpecGame)
    requires
        new.len() > 0,
        added_by_merge(gs, new.drop_last(), x),
    ensures
        added_by_merge(gs, new, x),
{
    let init = new.drop_last();
    let j = choose|j: int|
        0 <= j < init.len() && init[j] == x && !has_game_id(gs, x.id) && #[trigger] first_with_its_id(
            init,
            j,
        );
    assert(new[j] == init[j]);
    assert forall|j2: int| 0 <= j2 < j implies #[trigger] new[j2].id != new[j].id by {
        assert(new[j2] == init[j2]);
    }
    assert(first_with_its_id(new, j));
}

proof fn lemma_merge_step(gs: Seq<SpecGame>, new: Seq<SpecGame>, r: Seq<SpecGame>)
    requires
        new.len() > 0,
        r == merge_unique(gs, new.drop_last()),
        r.len() >= gs.len(),
        r.take(gs.len() as int) == gs,
        forall|j: int| 0 <= j < new.len() - 1 ==> has_game_id(r, #[trigger] new.drop_last()[j].id),
        forall|k: int| gs.len() <= k < r.len() ==> added_by_merge(gs, new.drop_last(), #[trigger] r[k]),
    ensures
        merge_unique(gs, new).len() >= gs.len(),
        merge_unique(gs, new).take(gs.len() as int) == gs,
        forall|j: int| 0 <= j < new.len() ==> has_game_id(merge_unique(gs, new), #[trigger] new[j].id),
        forall|k: int|
            gs.len() <= k < merge_unique(gs, new).len() ==> added_by_merge(
                gs,
                new,
                #[trigger] merge_unique(gs, new)[k],
            ),
{
    let init = new.drop_last();
    let g = new.last();
    let m = merge_unique(gs, new);
    assert forall|j: int| 0 <= j < new.len() - 1 implies has_game_id(r, #[trigger] new[j].id) by {
        assert(new[j] == init[j]);
        assert(has_game_id(r, init[j].id));
    }
    if has_game_id(r, g.id) {
        assert(m == r);
        assert forall|k: int| gs.len() <= k < m.len() implies added_by_merge(gs, new, #[trigger] m[k]) by {
            lemma_added_extends(gs, new, r[k]);
        }
    } else {
        assert(m == r.push(g));
        assert(m.take(gs.len() as int) =~= r.take(gs.len() as int));
        assert forall|j: int| 0 <= j < new.len() implies has_game_id(m, #[trigger] new[j].id) by {
            if j < new.len() - 1 {
                let k = choose|k: int| 0 <= k < r.len() && #[trigger] r[k].id == new[j].id;
                assert(m[k] == r[k]);
            } else {
                assert(m[r.len() as int] == g);
            }
        }
        assert(!has_game_id(gs, g.id)) by {
            if has_game_id(gs, g.id) {
                let k = choose|k: int| 0 <= k < gs.len() && #[trigger] gs[k].id == g.id;
                assert(r.take(gs.len() as int)[k] == r[k]);
                assert(r[k].id == g.id);
            }
        }
        let jl = new.len() - 1;
        assert forall|j2: int| 0 <= j2 < jl implies #[trigger] new[j2].id != new[jl].id by {
            assert(has_game_id(r, new[j2].id));
        }
        assert(first_with_its_id(new, jl));
        assert forall|k: int| gs.len() <= k < m.len() implies added_by_merge(gs, new, #[trigger] m[k]) by {
            if k < r.len() {
                assert(m[k] == r[k]);
                lemma_added_extends(gs, new, r[k]);
            } else {
                assert(m[k] == new[jl]);
            }
        }
    }
}

/// Game ids are the platform's name, a colon, and the platform's own id:
/// `steam:`, `gog:`, `epic:`, `itchio:` or `gamejolt:` followed by it.
pub proof fn lemma_game_id_prefixes(x: Seq<char>)
    ensures
        game_id(Platform::Steam, x) == "steam:"@ + x,
        game_id(Platform::Gog, x) == "gog:"@ + x,
        game_id(Platform::Epic, x) == "epic:"@ + x,
        game_id(Platform::Itchio, x) == "itchio:"@ + x,
        game_id(Platform::Gamejolt, x) == "gamejolt:"@ + x,
{
    reveal_strlit(":");
    reveal_strlit("steam");
    reveal_strlit("gog");
    reveal_strlit("epic");
    reveal_strlit("itchio");
    reveal_strlit("gamejolt");
    reveal_strlit("steam:");
    reveal_strlit("gog:");
    reveal_strlit("epic:");
    reveal_strlit("itchio:");
    reveal_strlit("gamejolt:");
    assert("steam"@ + ":"@ + x =~= "steam:"@ + x);
    assert("gog"@ + ":"@ + x =~= "gog:"@ + x);
    assert("epic"@ + ":"@ + x =~= "epic:"@ + x);
    assert("itchio"@ + ":"@ + x =~= "itchio:"@ + x);
    assert("gamejolt"@ + ":"@ + x =~= "gamejolt:"@ + x);
}

} // verus!
