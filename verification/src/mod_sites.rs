//! Resolves a "mod site" id — built-in (Nexus Mods, CurseForge) or one of the
//! user's own custom sites — to its URL and display title, and validates
//! custom sites before they're saved.

use vstd::prelude::*;

use crate::settings::CustomModSite;
use crate::text::{concat, concat3, is_blank, is_blank_spec, str_equal};
use crate::urls::{parse_url, url_parse, SpecUrl, UrlParts};

verus! {

/// Why a mod site could not be resolved or accepted.
#[derive(Debug, PartialEq)]
pub enum ModSiteError {
    UnknownSite(String),
    EmptyName,
    InvalidUrl(String),
    DuplicateId(String),
}

/// The mathematical value of a [`ModSiteError`].
pub enum SpecModSiteError {
    UnknownSite(Seq<char>),
    EmptyName,
    InvalidUrl(Seq<char>),
    DuplicateId(Seq<char>),
}

impl View for ModSiteError {
    type V = SpecModSiteError;

    open spec fn view(&self) -> SpecModSiteError {
        match self {
            ModSiteError::UnknownSite(s) => SpecModSiteError::UnknownSite(s@),
            ModSiteError::EmptyName => SpecModSiteError::EmptyName,
            ModSiteError::InvalidUrl(s) => SpecModSiteError::InvalidUrl(s@),
            ModSiteError::DuplicateId(s) => SpecModSiteError::DuplicateId(s@),
        }
    }
}

impl SpecModSiteError {
    pub open spec fn message_spec(self) -> Seq<char> {
        match self {
            SpecModSiteError::UnknownSite(s) => "unknown mod site: "@ + s,
            SpecModSiteError::EmptyName => "mod site name cannot be empty"@,
            SpecModSiteError::InvalidUrl(s) => "mod site URL must start with http:// or https://: "@
                + s,
            SpecModSiteError::DuplicateId(s) => "a mod site with id \""@ + s + "\" already exists"@,
        }
    }
}

impl ModSiteError {
    /// The human-readable description of the error.
    pub fn message(&self) -> (r: String)
        ensures
            r@ == self@.message_spec(),
    {
        match self {
            ModSiteError::UnknownSite(s) => concat("unknown mod site: ", s.as_str()),
            ModSiteError::EmptyName => "mod site name cannot be empty".to_owned(),
            ModSiteError::InvalidUrl(s) => concat(
                "mod site URL must start with http:// or https://: ",
                s.as_str(),
            ),
            ModSiteError::DuplicateId(s) => concat3(
                "a mod site with id \"",
                s.as_str(),
                "\" already exists",
            ),
        }
    }
}

/// A mod site's URL and display title.
#[derive(Debug, Clone, PartialEq)]
pub struct ResolvedSite {
    pub url: String,
    pub title: String,
}

/// The sites Zegra ships with, by id: their URL and title. Nexus Mods and
/// CurseForge get special treatment elsewhere (Nexus Mods' `nxm://` link
/// handling); everything else a user adds is a plain custom site.
pub open spec fn built_in_site_spec(id: Seq<char>) -> Option<(Seq<char>, Seq<char>)> {
    if id == "nexusmods"@ {
        Some(("https://www.nexusmods.com"@, "Nexus Mods"@))
    } else if id == "curseforge"@ {
        Some(("https://www.curseforge.com"@, "CurseForge"@))
    } else {
        None
    }
}

/// The URL and title of the built-in site `id`, if there is one.
pub fn built_in_site(id: &str) -> (r: Option<(&'static str, &'static str)>)
    ensures
        match built_in_site_spec(id@) {
            Some((u, t)) => r matches Some((x, y)) && x@ == u && y@ == t,
            None => r is None,
        },
{
    if str_equal(id, "nexusmods") {
        Some(("https://www.nexusmods.com", "Nexus Mods"))
    } else if str_equal(id, "curseforge") {
        Some(("https://www.curseforge.com", "CurseForge"))
    } else {
        None
    }
}

/// Index of the first site from `i` on whose id is `id`.
pub open spec fn first_site_with_id(sites: Seq<CustomModSite>, id: Seq<char>, i: int) -> Option<int>
    decreases sites.len() - i,
{
    if i < 0 || i >= sites.len() {
        None
    } else if sites[i].id@ == id {
        Some(i)
    } else {
        first_site_with_id(sites, id, i + 1)
    }
}

/// Looks up `site_id` among the built-in sites first, then the user's custom
/// sites (the first with that id).
pub fn resolve_site(site_id: &str, custom_sites: &[CustomModSite]) -> (r: Result<
    ResolvedSite,
    ModSiteError,
>)
    ensures
        match built_in_site_spec(site_id@) {
            Some((u, t)) => r matches Ok(rs) && rs.url@ == u && rs.title@ == t,
            None => match first_site_with_id(custom_sites@, site_id@, 0) {
                Some(i) => r matches Ok(rs) && rs.url@ == custom_sites@[i].url@ && rs.title@
                    == custom_sites@[i].name@,
                None => r matches Err(e) && e@ == SpecModSiteError::UnknownSite(site_id@),
            },
        },
{
    if let Some((url, title)) = built_in_site(site_id) {
        return Ok(ResolvedSite { url: url.to_owned(), title: title.to_owned() });
    }
    let mut i: usize = 0;
    while i < custom_sites.len()
        invariant
            i <= custom_sites@.len(),
            built_in_site_spec(site_id@) is None,
            first_site_with_id(custom_sites@, site_id@, 0) == first_site_with_id(
                custom_sites@,
                site_id@,
                i as int,
            ),
        decreases custom_sites.len() - i,
    {
        let s = &custom_sites[i];
        if str_equal(s.id.as_str(), site_id) {
            return Ok(ResolvedSite { url: s.url.clone(), title: s.name.clone() });
        }
        i = i + 1;
    }
    Err(ModSiteError::UnknownSite(site_id.to_owned()))
}

/// Whether a URL parse outcome is a URL with scheme `http` or `https`.
pub open spec fn is_web_url(r: Result<SpecUrl, Seq<char>>) -> bool {
    match r {
        Ok(u) => u.scheme == "http"@ || u.scheme == "https"@,
        Err(_) => false,
    }
}

/// Whether some site in `sites` has id `id`.
pub open spec fn has_site_id(sites: Seq<CustomModSite>, id: Seq<char>) -> bool {
    exists|j: int| 0 <= j < sites.len() && #[trigger] sites[j].id@ == id
}

/// The verdict on one custom site, given what its URL parsed to and the
/// sites before it: the name must have a non-whitespace character, the URL
/// must parse with scheme `http` or `https`, and the id must be neither a
/// built-in site's nor that of a site before it, checked in that order.
pub open spec fn site_verdict(
    site: CustomModSite,
    parsed: Result<SpecUrl, Seq<char>>,
    existing: Seq<CustomModSite>,
) -> Result<(), SpecModSiteError> {
    if is_blank_spec(site.name@) {
        Err(SpecModSiteError::EmptyName)
    } else if !is_web_url(parsed) {
        Err(SpecModSiteError::InvalidUrl(site.url@))
    } else if built_in_site_spec(site.id@) is Some {
        Err(SpecModSiteError::DuplicateId(site.id@))
    } else if has_site_id(existing, site.id@) {
        Err(SpecModSiteError::DuplicateId(site.id@))
    } else {
        Ok(())
    }
}

/// The verdict on one custom site, given the sites before it.
pub open spec fn validate_one_spec(site: CustomModSite, existing: Seq<CustomModSite>) -> Result<
    (),
    SpecModSiteError,
> {
    site_verdict(site, url_parse(site.url@), existing)
}

/// The mathematical value of a URL parse outcome.
pub open spec fn parsed_view(parsed: Result<UrlParts, String>) -> Result<SpecUrl, Seq<char>> {
    match parsed {
        Ok(p) => Ok(p@),
        Err(e) => Err(e@),
    }
}

/// Checks one custom site, given what its URL parsed to and the sites that
/// would already exist alongside it.
pub fn check_site(
    site: &CustomModSite,
    parsed: Result<UrlParts, String>,
    existing: &[CustomModSite],
) -> (r: Result<(), ModSiteError>)
    ensures
        match site_verdict(*site, parsed_view(parsed), existing@) {
            Ok(()) => r is Ok,
            Err(e) => r matches Err(x) && x@ == e,
        },
{
    if is_blank(site.name.as_str()) {
        return Err(ModSiteError::EmptyName);
    }
    let url = match &parsed {
        Ok(p) => p,
        Err(_) => {
            return Err(ModSiteError::InvalidUrl(site.url.clone()));
        },
    };
    if !str_equal(url.scheme.as_str(), "http") && !str_equal(url.scheme.as_str(), "https") {
        return Err(ModSiteError::InvalidUrl(site.url.clone()));
    }
    if built_in_site(site.id.as_str()).is_some() {
        return Err(ModSiteError::DuplicateId(site.id.clone()));
    }
    let mut j: usize = 0;
    while j < existing.len()
        invariant
            j <= existing@.len(),
            !is_blank_spec(site.name@),
            is_web_url(parsed_view(parsed)),
            built_in_site_spec(site.id@) is None,
            forall|k: int| 0 <= k < j ==> #[trigger] existing@[k].id@ != site.id@,
        decreases existing.len() - j,
    {
        if str_equal(existing[j].id.as_str(), site.id.as_str()) {
            assert(existing@[j as int].id@ == site.id@);
            return Err(ModSiteError::DuplicateId(site.id.clone()));
        }
        j = j + 1;
    }
    Ok(())
}

/// Validates a single custom mod site against the sites that would already
/// exist alongside it: non-empty name, an `http://`/`https://` URL only
/// (blocking `file://`, `javascript:`, `nxm://`, or anything else that isn't
/// just "open this website"), and no id collision with a built-in site or
/// another custom one.
fn validate_one(site: &CustomModSite, existing: &[CustomModSite]) -> (r: Result<(), ModSiteError>)
    ensures
        match validate_one_spec(*site, existing@) {
            Ok(()) => r is Ok,
            Err(e) => r matches Err(x) && x@ == e,
        },
{
    let parsed = parse_url(site.url.as_str());
    check_site(site, parsed, existing)
}

/// The verdict on `sites[i..]`, each checked against the sites before it.
pub open spec fn validate_from(sites: Seq<CustomModSite>, i: int) -> Result<(), SpecModSiteError>
    decreases sites.len() - i,
{
    if i < 0 || i >= sites.len() {
        Ok(())
    } else {
        match validate_one_spec(sites[i], sites.take(i)) {
            Err(e) => Err(e),
            Ok(()) => validate_from(sites, i + 1),
        }
    }
}

/// The verdict on a whole custom-sites list: the first site that fails, in
/// order, decides the error.
pub open spec fn validate_all_spec(sites: Seq<CustomModSite>) -> Result<(), SpecModSiteError> {
    validate_from(sites, 0)
}

/// Validates an entire custom-sites list (as saved from Settings), checking
/// each entry against every one before it so duplicate ids within the list
/// itself are caught too.
pub fn validate_all(sites: &[CustomModSite]) -> (r: Result<(), ModSiteError>)
    ensures
        match validate_all_spec(sites@) {
            Ok(()) => r is Ok,
            Err(e) => r matches Err(x) && x@ == e,
        },
{
    let mut i: usize = 0;
    while i < sites.len()
        invariant
            i <= sites@.len(),
            validate_all_spec(sites@) == validate_from(sites@, i as int),
        decreases sites.len() - i,
    {
        let before = vstd::slice::slice_subrange(sites, 0, i);
        assert(before@ =~= sites@.take(i as int));
        if let Err(e) = validate_one(&sites[i], before) {
            return Err(e);
        }
        i = i + 1;
    }
    Ok(())
}

/// What a list that `validate_all` accepts is like: every name has a
/// non-whitespace character, every URL parses with scheme `http` or `https`,
/// no id is a built-in site's, and no two sites share an id.
pub proof fn lemma_accepted_sites_are_sound(sites: Seq<CustomModSite>)
    requires
        validate_all_spec(sites) is Ok,
    ensures
        forall|i: int|
            0 <= i < sites.len() ==> {
                &&& !is_blank_spec(#[trigger] sites[i].name@)
                &&& is_web_url(url_parse(sites[i].url@))
                &&& built_in_site_spec(sites[i].id@) is None
            },
        forall|i: int, j: int|
            0 <= i < j < sites.len() ==> #[trigger] sites[i].id@ != #[trigger] sites[j].id@,
{
    assert forall|k: int| 0 <= k <= sites.len() implies validate_from(sites, k) is Ok by {
        lemma_validate_from_suffix(sites, k);
    }
    assert forall|i: int| 0 <= i < sites.len() implies {
        &&& !is_blank_spec(#[trigger] sites[i].name@)
        &&& is_web_url(url_parse(sites[i].url@))
        &&& built_in_site_spec(sites[i].id@) is None
    } by {
        assert(validate_from(sites, i) is Ok);
    }
    assert forall|i: int, j: int| 0 <= i < j < sites.len() implies #[trigger] sites[i].id@
        != #[trigger] sites[j].id@ by {
        assert(validate_from(sites, j) is Ok);
        assert(sites.take(j)[i] == sites[i]);
        if sites[i].id@ == sites[j].id@ {
            assert(has_site_id(sites.take(j), sites[j].id@));
        }
    }
}

proof fn lemma_validate_from_suffix(sites: Seq<CustomModSite>, k: int)
    requires
        validate_from(sites, 0) is Ok,
        0 <= k <= sites.len(),
    ensures
        validate_from(sites, k) is Ok,
    decreases k,
{
    if k > 0 {
        lemma_validate_from_suffix(sites, k - 1);
    }
}

/// Whether site `i` of `sites` passes every check: its name has a
/// non-whitespace character, its URL parses with scheme `http` or `https`,
/// its id is no built-in site's, and no site before it has its id.
pub open spec fn site_is_acceptable(sites: Seq<CustomModSite>, i: int) -> bool {
    &&& !is_blank_spec(sites[i].name@)
    &&& is_web_url(url_parse(sites[i].url@))
    &&& built_in_site_spec(sites[i].id@) is None
    &&& forall|j: int| 0 <= j < i ==> #[trigger] sites[j].id@ != sites[i].id@
}

/// The verdict of `validate_all`: a list is accepted exactly when every
/// site in it passes every check; a refused list is refused for its first
/// failing site, every site before it passing, with that site's first
/// failing check in the order empty name, invalid URL, duplicate id.
pub proof fn lemma_validate_all_verdict(sites: Seq<CustomModSite>)
    ensures
        validate_all_spec(sites) is Ok <==> forall|i: int|
            0 <= i < sites.len() ==> site_is_acceptable(sites, i),
        validate_all_spec(sites) matches Err(e) ==> exists|i: int|
            0 <= i < sites.len() && !site_is_acceptable(sites, i) && (forall|j: int|
                0 <= j < i ==> site_is_acceptable(sites, j)) && #[trigger] validate_one_spec(
                sites[i],
                sites.take(i),
            ) == Err::<(), SpecModSiteError>(e),
{
    assert forall|i: int| 0 <= i < sites.len() implies (validate_one_spec(sites[i], sites.take(i))
        is Ok <==> #[trigger] site_is_acceptable(sites, i)) by {
        lemma_one_verdict(sites, i);
    }
    lemma_validate_from_verdict(sites, 0);
}

proof fn lemma_one_verdict(sites: Seq<CustomModSite>, i: int)
    requires
        0 <= i < sites.len(),
    ensures
        validate_one_spec(sites[i], sites.take(i)) is Ok <==> site_is_acceptable(sites, i),
{
    let pre = sites.take(i);
    let id = sites[i].id@;
    if has_site_id(pre, id) {
        let j = choose|j: int| 0 <= j < pre.len() && #[trigger] pre[j].id@ == id;
        assert(sites[j].id@ == id);
    }
    if exists|j: int| 0 <= j < i && #[trigger] sites[j].id@ == id {
        let j = choose|j: int| 0 <= j < i && #[trigger] sites[j].id@ == id;
        assert(pre[j].id@ == id);
    }
}

proof fn lemma_validate_from_verdict(sites: Seq<CustomModSite>, k: int)
    requires
        0 <= k <= sites.len(),
        forall|i: int|
            0 <= i < sites.len() ==> (validate_one_spec(sites[i], sites.take(i)) is Ok
                <==> #[trigger] site_is_acceptable(sites, i)),
    ensures
        validate_from(sites, k) is Ok <==> forall|i: int|
            k <= i < sites.len() ==> site_is_acceptable(sites, i),
        validate_from(sites, k) matches Err(e) ==> exists|i: int|
            k <= i < sites.len() && !site_is_acceptable(sites, i) && (forall|j: int|
                k <= j < i ==> site_is_acceptable(sites, j)) && #[trigger] validate_one_spec(
                sites[i],
                sites.take(i),
            ) == Err::<(), SpecModSiteError>(e),
    decreases sites.len() - k,
{
    if k < sites.len() {
        lemma_validate_from_verdict(sites, k + 1);
        assert(site_is_acceptable(sites, k) <==> validate_one_spec(sites[k], sites.take(k)) is Ok);
        if let Err(e) = validate_from(sites, k) {
            if validate_one_spec(sites[k], sites.take(k)) is Ok {
                let i = choose|i: int|
                    k + 1 <= i < sites.len() && !site_is_acceptable(sites, i) && (forall|j: int|
                        k + 1 <= j < i ==> site_is_acceptable(sites, j)) && #[trigger] validate_one_spec(
                        sites[i],
                        sites.take(i),
                    ) == Err::<(), SpecModSiteError>(e);
                assert(forall|j: int| k <= j < i ==> site_is_acceptable(sites, j));
            } else {
                assert(validate_one_spec(sites[k], sites.take(k)) == Err::<(), SpecModSiteError>(e));
            }
        }
    }
}

/// Zegra ships exactly two built-in sites: an id names a built-in site
/// exactly when it is `nexusmods` (Nexus Mods) or `curseforge`
/// (CurseForge); every other id is free for a custom site.
pub proof fn lemma_built_in_sites_are_exactly_two(id: Seq<char>)
    ensures
        built_in_site_spec(id) is Some <==> (id == "nexusmods"@ || id == "curseforge"@),
        id == "nexusmods"@ ==> built_in_site_spec(id) == Some(
            ("https://www.nexusmods.com"@, "Nexus Mods"@),
        ),
        id == "curseforge"@ ==> built_in_site_spec(id) == Some(
            ("https://www.curseforge.com"@, "CurseForge"@),
        ),
{
    reveal_strlit("nexusmods");
    reveal_strlit("curseforge");
    assert("nexusmods"@[0] != "curseforge"@[0]);
}

/// A custom-sites list is accepted whenever every site has a name with a
/// non-whitespace character, a URL that parses with scheme `http` or
/// `https`, an id other than `nexusmods` and `curseforge`, and an id no
/// site before it has.
pub proof fn lemma_other_unique_ids_are_accepted(sites: Seq<CustomModSite>)
    requires
        forall|i: int|
            0 <= i < sites.len() ==> {
                &&& !is_blank_spec(#[trigger] sites[i].name@)
                &&& is_web_url(url_parse(sites[i].url@))
                &&& sites[i].id@ != "nexusmods"@
                &&& sites[i].id@ != "curseforge"@
            },
        forall|i: int, j: int|
            0 <= i < j < sites.len() ==> #[trigger] sites[i].id@ != #[trigger] sites[j].id@,
    ensures
        validate_all_spec(sites) is Ok,
{
    assert forall|i: int| 0 <= i < sites.len() implies site_is_acceptable(sites, i) by {
        lemma_built_in_sites_are_exactly_two(sites[i].id@);
        assert forall|j: int| 0 <= j < i implies #[trigger] sites[j].id@ != sites[i].id@ by {
            assert(sites[j].id@ != sites[i].id@);
        }
    }
    lemma_validate_all_verdict(sites);
}

} // verus!
