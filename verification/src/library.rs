//! Aggregates every platform's scan into a single combined library.

use vstd::prelude::*;

use crate::http_client::{HttpClient, HttpResponse};
use crate::models::{
    clone_games, games_view, Game, LibraryScanResult, Platform, PlatformScanResult,
    PlatformScanStatus, SpecGame, SpecLibrary, SpecPlatformResult, SpecScanStatus,
};
use crate::platforms::gamejolt::UNSUPPORTED_REASON;
use crate::platforms::itchio::{
    answered_pages, fetch_owned_games, fetch_pages, ItchIoError, SpecItchIoError,
};
use crate::settings::Settings;
use crate::text::is_blank_spec;

verus! {

/// Why itch.io is skipped when no key is set.
pub open spec fn no_itchio_key_reason() -> Seq<char> {
    "no itch.io API key configured in Settings"@
}

/// The itch.io part of a scan: skipped without a key, else the games
/// fetched or the error that stopped the fetch.
pub open spec fn itchio_result_spec(itchio: Option<Result<Seq<SpecGame>, SpecItchIoError>>) -> SpecPlatformResult {
    match itchio {
        None => SpecPlatformResult {
            platform: Platform::Itchio,
            status: SpecScanStatus::Unsupported(no_itchio_key_reason()),
            games: Seq::empty(),
        },
        Some(Ok(gs)) => SpecPlatformResult {
            platform: Platform::Itchio,
            status: SpecScanStatus::Succeeded,
            games: gs,
        },
        Some(Err(e)) => SpecPlatformResult {
            platform: Platform::Itchio,
            status: SpecScanStatus::Error(e.message_spec()),
            games: Seq::empty(),
        },
    }
}

/// The combined library: each local scan (which never fails outright: an
/// unreadable or missing path just finds nothing) reported as succeeded,
/// itch.io's outcome surfaced distinctly, GameJolt reported unsupported, and
/// every game found listed in that order.
pub open spec fn library_spec(
    steam: Seq<SpecGame>,
    gog: Seq<SpecGame>,
    epic: Seq<SpecGame>,
    itchio: Option<Result<Seq<SpecGame>, SpecItchIoError>>,
) -> SpecLibrary {
    let itch = itchio_result_spec(itchio);
    SpecLibrary {
        games: steam + gog + epic + itch.games,
        platform_results: seq![
            SpecPlatformResult { platform: Platform::Steam, status: SpecScanStatus::Succeeded, games: steam },
            SpecPlatformResult { platform: Platform::Gog, status: SpecScanStatus::Succeeded, games: gog },
            SpecPlatformResult { platform: Platform::Epic, status: SpecScanStatus::Succeeded, games: epic },
            itch,
            SpecPlatformResult {
                platform: Platform::Gamejolt,
                status: SpecScanStatus::Unsupported(UNSUPPORTED_REASON@),
                games: Seq::empty(),
            },
        ],
    }
}

/// The view of an itch.io outcome.
pub open spec fn itchio_view(itchio: Option<Result<Vec<Game>, ItchIoError>>) -> Option<
    Result<Seq<SpecGame>, SpecItchIoError>,
> {
    match itchio {
        None => None,
        Some(Ok(gs)) => Some(Ok(games_view(gs@))),
        Some(Err(e)) => Some(Err(e@)),
    }
}

/// Merges the results of every platform's scan into one library. `itchio`
/// is `None` when no itch.io key is configured.
pub fn assemble_library(
    steam_games: Vec<Game>,
    gog_games: Vec<Game>,
    epic_games: Vec<Game>,
    itchio: Option<Result<Vec<Game>, ItchIoError>>,
) -> (r: LibraryScanResult)
    ensures
        r@ == library_spec(
            games_view(steam_games@),
            games_view(gog_games@),
            games_view(epic_games@),
            itchio_view(itchio),
        ),
{
    let ghost sv = games_view(steam_games@);
    let ghost gv = games_view(gog_games@);
    let ghost ev = games_view(epic_games@);
    let ghost iv = itchio_view(itchio);
    let mut all_games: Vec<Game> = Vec::new();
    let mut platform_results: Vec<PlatformScanResult> = Vec::new();

    let mut s = clone_games(&steam_games);
    all_games.append(&mut s);
    platform_results.push(
        PlatformScanResult {
            platform: Platform::Steam,
            status: PlatformScanStatus::Succeeded,
            games: steam_games,
        },
    );
    let mut g = clone_games(&gog_games);
    all_games.append(&mut g);
    platform_results.push(
        PlatformScanResult { platform: Platform::Gog, status: PlatformScanStatus::Succeeded, games: gog_games },
    );
    let mut e = clone_games(&epic_games);
    all_games.append(&mut e);
    platform_results.push(
        PlatformScanResult {
            platform: Platform::Epic,
            status: PlatformScanStatus::Succeeded,
            games: epic_games,
        },
    );
    let itch = match itchio {
        None => PlatformScanResult {
            platform: Platform::Itchio,
            status: PlatformScanStatus::Unsupported {
                reason: "no itch.io API key configured in Settings".to_owned(),
            },
            games: {
                let v: Vec<Game> = Vec::new();
                assert(games_view(v@) =~= Seq::<SpecGame>::empty());
                v
            },
        },
        Some(Ok(games)) => {
            let mut c = clone_games(&games);
            all_games.append(&mut c);
            PlatformScanResult { platform: Platform::Itchio, status: PlatformScanStatus::Succeeded, games }
        },
        Some(Err(err)) => PlatformScanResult {
            platform: Platform::Itchio,
            status: PlatformScanStatus::Error { message: err.message() },
            games: {
                let v: Vec<Game> = Vec::new();
                assert(games_view(v@) =~= Seq::<SpecGame>::empty());
                v
            },
        },
    };
    platform_results.push(itch);
    platform_results.push(
        PlatformScanResult {
            platform: Platform::Gamejolt,
            status: PlatformScanStatus::Unsupported { reason: UNSUPPORTED_REASON.to_owned() },
            games: {
                let v: Vec<Game> = Vec::new();
                assert(games_view(v@) =~= Seq::<SpecGame>::empty());
                v
            },
        },
    );
    let r = LibraryScanResult { games: all_games, platform_results };
    proof {
        let spec = library_spec(sv, gv, ev, iv);
        assert(games_view(r.games@) =~= spec.games);
        assert(r.platform_results@.map_values(|x: PlatformScanResult| x@) =~= spec.platform_results);
    }
    r
}

/// Runs the itch.io fetch through `http_client` (when a key is configured)
/// and merges it with the local scans' results (Steam, GOG, Epic via
/// Legendary/Heroic), which never fail outright. The itch.io outcome is what
/// the pagination rules make of the client's responses.
pub fn scan_all<C: HttpClient>(
    settings: &Settings,
    http_client: &C,
    steam_games: Vec<Game>,
    gog_games: Vec<Game>,
    epic_games: Vec<Game>,
) -> (r: LibraryScanResult)
    ensures
        settings.itchio_api_key is None ==> r@ == library_spec(
            games_view(steam_games@),
            games_view(gog_games@),
            games_view(epic_games@),
            None,
        ),
        settings.itchio_api_key matches Some(key) ==> exists|
            outcome: Result<Seq<SpecGame>, SpecItchIoError>,
        |
            #![trigger library_spec(games_view(steam_games@), games_view(gog_games@), games_view(epic_games@), Some(outcome))]
            r@ == library_spec(
                games_view(steam_games@),
                games_view(gog_games@),
                games_view(epic_games@),
                Some(outcome),
            ) && (is_blank_spec(key@) ==> outcome == Err::<Seq<SpecGame>, SpecItchIoError>(
                SpecItchIoError::MissingApiKey,
            )) && (!is_blank_spec(key@) ==> exists|resps: Seq<Result<HttpResponse, String>>|
                answered_pages(http_client, key@, resps) && #[trigger] fetch_pages(
                    resps,
                    1,
                    Seq::empty(),
                ) == outcome),
{
    let itchio = match &settings.itchio_api_key {
        None => None,
        Some(key) => Some(fetch_owned_games(http_client, key.as_str())),
    };
    let ghost iv = itchio_view(itchio);
    let r = assemble_library(steam_games, gog_games, epic_games, itchio);
    proof {
        if let Some(key) = &settings.itchio_api_key {
            let outcome = iv.unwrap();
            if !is_blank_spec(key@) {
                let resps = choose|resps: Seq<Result<HttpResponse, String>>|
                    answered_pages(http_client, key@, resps) && match #[trigger] fetch_pages(
                        resps,
                        1,
                        Seq::empty(),
                    ) {
                        Ok(gs) => itchio matches Some(Ok(x)) && games_view(x@) == gs,
                        Err(e) => itchio matches Some(Err(x)) && x@ == e,
                    };
                assert(fetch_pages(resps, 1, Seq::empty()) == outcome);
            }
        }
    }
    r
}

/// Each platform's result carries exactly the games found for it: Steam,
/// GOG and Epic (in that order) report success with their own games,
/// itch.io reports its games only when the fetch succeeded, GameJolt none;
/// and the combined list is the local platforms' games followed by
/// itch.io's.
pub proof fn lemma_each_platform_keeps_its_games(
    steam: Seq<SpecGame>,
    gog: Seq<SpecGame>,
    epic: Seq<SpecGame>,
    itchio: Option<Result<Seq<SpecGame>, SpecItchIoError>>,
)
    ensures
        ({
            let l = library_spec(steam, gog, epic, itchio);
            let rs = l.platform_results;
            &&& rs.len() == 5
            &&& rs[0].platform == Platform::Steam && rs[0].status == SpecScanStatus::Succeeded
                && rs[0].games == steam
            &&& rs[1].platform == Platform::Gog && rs[1].status == SpecScanStatus::Succeeded
                && rs[1].games == gog
            &&& rs[2].platform == Platform::Epic && rs[2].status == SpecScanStatus::Succeeded
                && rs[2].games == epic
            &&& rs[3].platform == Platform::Itchio
            &&& rs[3].games == match itchio {
                Some(Ok(gs)) => gs,
                _ => Seq::<SpecGame>::empty(),
            }
            &&& (itchio matches Some(Ok(_)) <==> rs[3].status == SpecScanStatus::Succeeded)
            &&& rs[4].platform == Platform::Gamejolt && rs[4].games.len() == 0
            &&& l.games == steam + gog + epic + rs[3].games
            &&& l.games.len() == steam.len() + gog.len() + epic.len() + rs[3].games.len()
        }),
{
}

} // verus!
