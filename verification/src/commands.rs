//! The decisions behind the frontend's commands: which mod-site windows to
//! show or hide, which deep link to act on, and what resolving an `nxm://`
//! link reports. The windows, the opener and the settings file are driven
//! where the desktop runtime is.

use vstd::prelude::*;
use vstd::string::StrSliceExecFns;

use crate::http_client::{HttpClient, HttpResponse};
use crate::platforms::nexus::{
    download_link_url_spec, link_size, max_link_size, nexus_headers, nxm_link_spec, parse_nxm_url,
    resolve_download_url, response_outcome, NxmLink, SpecNexusError, API_BASE,
};
use crate::settings::Settings;
use crate::text::{concat, is_blank_spec, starts_with, str_equal};

verus! {

/// The label of the window that shows mod site `site_id`.
pub open spec fn mod_window_label_spec(site_id: Seq<char>) -> Seq<char> {
    "mods-"@ + site_id
}

/// The label of the window that shows mod site `site_id`.
pub fn mod_window_label(site_id: &str) -> (r: String)
    ensures
        r@ == mod_window_label_spec(site_id@),
{
    concat("mods-", site_id)
}

/// Whether `label` is a mod-site window's label.
pub open spec fn is_mod_window(label: Seq<char>) -> bool {
    "mods-"@.len() <= label.len() && label.take("mods-"@.len() as int) == "mods-"@
}

/// The windows to hide so that only `active_site`'s window (if any) stays
/// visible: every mod-site window other than the active one, in order.
pub open spec fn windows_to_hide_spec(labels: Seq<Seq<char>>, active: Option<Seq<char>>) -> Seq<Seq<char>> {
    labels.filter(
        |l: Seq<char>|
            is_mod_window(l) && !(active matches Some(a) && l == mod_window_label_spec(a)),
    )
}

/// The open windows (by label) to hide when `active_site`'s window is shown;
/// `None` hides every mod-site window (the user left the Mods tab).
pub fn mod_windows_to_hide(labels: &Vec<String>, active_site: Option<&str>) -> (r: Vec<String>)
    ensures
        crate::urls::strings_view(r@) == windows_to_hide_spec(
            crate::urls::strings_view(labels@),
            match active_site {
                Some(a) => Some(a@),
                None => None,
            },
        ),
{
    let active_label: Option<String> = match active_site {
        Some(a) => Some(mod_window_label(a)),
        None => None,
    };
    let ghost active = match active_site {
        Some(a) => Some(a@),
        None => None::<Seq<char>>,
    };
    let ghost lv = crate::urls::strings_view(labels@);
    let ghost pred = |l: Seq<char>|
        is_mod_window(l) && !(active matches Some(a) && l == mod_window_label_spec(a));
    let mut out: Vec<String> = Vec::new();
    let mut i: usize = 0;
    assert(lv.take(0) =~= Seq::<Seq<char>>::empty());
    while i < labels.len()
        invariant
            i <= labels@.len(),
            lv == crate::urls::strings_view(labels@),
            pred == (|l: Seq<char>|
                is_mod_window(l) && !(active matches Some(a) && l == mod_window_label_spec(a))),
            match active_label {
                Some(x) => active matches Some(a) && x@ == mod_window_label_spec(a),
                None => active is None,
            },
            crate::urls::strings_view(out@) == lv.take(i as int).filter(pred),
        decreases labels.len() - i,
    {
        let label = &labels[i];
        let is_active = match &active_label {
            Some(a) => str_equal(label.as_str(), a.as_str()),
            None => false,
        };
        let ghost before = crate::urls::strings_view(out@);
        assert(lv.take(i + 1).drop_last() =~= lv.take(i as int));
        reveal_with_fuel(Seq::<_>::filter, 1);
        if starts_with(label.as_str(), "mods-") && !is_active {
            out.push(label.clone());
            assert(crate::urls::strings_view(out@) =~= before.push(label@));
        }
        i = i + 1;
    }
    assert(lv.take(labels.len() as int) =~= lv);
    out
}

/// The first of `urls` that is an `nxm://` link.
pub open spec fn first_nxm_url_spec(urls: Seq<Seq<char>>, i: int) -> Option<Seq<char>>
    decreases urls.len() - i,
{
    if i < 0 || i >= urls.len() {
        None
    } else if "nxm://"@.len() <= urls[i].len() && urls[i].take("nxm://"@.len() as int) == "nxm://"@ {
        Some(urls[i])
    } else {
        first_nxm_url_spec(urls, i + 1)
    }
}

/// Picks the `nxm://` link out of the URLs a deep-link event carries.
pub fn first_nxm_url(urls: &Vec<String>) -> (r: Option<String>)
    ensures
        match first_nxm_url_spec(crate::urls::strings_view(urls@), 0) {
            Some(u) => r matches Some(x) && x@ == u,
            None => r is None,
        },
{
    let ghost uv = crate::urls::strings_view(urls@);
    let mut i: usize = 0;
    while i < urls.len()
        invariant
            i <= urls@.len(),
            uv == crate::urls::strings_view(urls@),
            first_nxm_url_spec(uv, 0) == first_nxm_url_spec(uv, i as int),
        decreases urls.len() - i,
    {
        if starts_with(urls[i].as_str(), "nxm://") {
            return Some(urls[i].clone());
        }
        i = i + 1;
    }
    None
}

/// What the frontend is told after handling an `nxm://` link.
pub open spec fn nxm_result_message_spec(r: Result<Seq<char>, Seq<char>>) -> Seq<char> {
    match r {
        Ok(u) => "resolved: "@ + u,
        Err(e) => "error: "@ + e,
    }
}

/// What the frontend is told after handling an `nxm://` link.
pub fn nxm_result_message(r: &Result<String, String>) -> (m: String)
    ensures
        m@ == nxm_result_message_spec(
            match r {
                Ok(u) => Ok(u@),
                Err(e) => Err(e@),
            },
        ),
{
    match r {
        Ok(u) => concat("resolved: ", u.as_str()),
        Err(e) => concat("error: ", e.as_str()),
    }
}

/// The message when no Nexus Mods key is set.
pub open spec fn no_nexus_key_message() -> Seq<char> {
    "no Nexus Mods API key configured in Settings"@
}

/// The message for a link too long to resolve.
pub open spec fn link_too_long_message() -> Seq<char> {
    "nxm:// link is too long to resolve"@
}

/// Resolves an `nxm://` link with the Nexus Mods key from `settings`,
/// reporting failures as text: no key configured, a link that does not
/// parse, or the resolution's own error. On success the caller opens the
/// returned download URL.
pub fn resolve_nxm_link<C: HttpClient>(client: &C, settings: &Settings, nxm_url: &str) -> (r: Result<
    String,
    String,
>)
    ensures
        settings.nexus_api_key is None ==> (r matches Err(m) && m@ == no_nexus_key_message()),
        settings.nexus_api_key matches Some(key) ==> match nxm_link_spec(nxm_url@) {
            Err(msg) => r matches Err(m) && m@ == SpecNexusError::InvalidLink(msg).message_spec(),
            Ok(l) => if link_size(l) > max_link_size() {
                r matches Err(m) && m@ == link_too_long_message()
            } else if is_blank_spec(key@) {
                r matches Err(m) && m@ == SpecNexusError::MissingApiKey.message_spec()
            } else {
                match download_link_url_spec(l) {
                    Err(e) => r matches Err(m) && m@ == SpecNexusError::Request(API_BASE@, e).message_spec(),
                    Ok(u) => exists|resp: Result<HttpResponse, String>|
                        client.answers(u, nexus_headers(key@), resp) && match #[trigger] response_outcome(
                            u,
                            resp,
                        ) {
                            Ok(x) => r matches Ok(y) && y@ == x,
                            Err(e) => r matches Err(m) && m@ == e.message_spec(),
                        },
                }
            },
        },
{
    let api_key = match &settings.nexus_api_key {
        Some(k) => k,
        None => {
            return Err("no Nexus Mods API key configured in Settings".to_owned());
        },
    };
    let link: NxmLink = match parse_nxm_url(nxm_url) {
        Ok(l) => l,
        Err(e) => {
            return Err(e.message());
        },
    };
    if !fits_size(&link) {
        return Err("nxm:// link is too long to resolve".to_owned());
    }
    let r = resolve_download_url(client, api_key.as_str(), &link);
    proof {
        if !is_blank_spec(api_key@) {
            if let Ok(u) = download_link_url_spec(link@) {
                let resp = choose|resp: Result<HttpResponse, String>|
                    client.answers(u, nexus_headers(api_key@), resp) && match #[trigger] response_outcome(
                        u,
                        resp,
                    ) {
                        Ok(x) => r matches Ok(y) && y@ == x,
                        Err(x) => r matches Err(y) && y@ == x,
                    };
                assert(client.answers(u, nexus_headers(api_key@), resp));
                assert(match response_outcome(u, resp) {
                    Ok(x) => r matches Ok(y) && y@ == x,
                    Err(x) => r matches Err(y) && y@ == x,
                });
            }
        }
    }
    match r {
        Ok(u) => Ok(u),
        Err(e) => Err(e.message()),
    }
}

/// Whether a link is small enough to resolve.
fn fits_size(link: &NxmLink) -> (r: bool)
    ensures
        r == (link_size(link@) <= max_link_size()),
{
    let a = link.game_domain.as_str().unicode_len() as u128;
    let b = link.mod_id.as_str().unicode_len() as u128;
    let c = link.file_id.as_str().unicode_len() as u128;
    let d: u128 = match &link.key {
        Some(k) => k.as_str().unicode_len() as u128,
        None => 0,
    };
    let e: u128 = match &link.expires {
        Some(x) => x.as_str().unicode_len() as u128,
        None => 0,
    };
    a + b + c + d + e <= 299_999_000
}

/// Showing a site leaves exactly its own window visible among the mod-site
/// windows: the active site's window is never hidden, every other mod-site
/// window is, and windows that are not mod-site windows are left alone.
pub proof fn lemma_only_the_active_window_stays(labels: Seq<Seq<char>>, active: Option<Seq<char>>)
    ensures
        forall|l: Seq<char>|
            #[trigger] windows_to_hide_spec(labels, active).contains(l) <==> (labels.contains(l)
                && is_mod_window(l) && !(active matches Some(a) && l == mod_window_label_spec(a))),
{
    let pred = |l: Seq<char>|
        is_mod_window(l) && !(active matches Some(a) && l == mod_window_label_spec(a));
    assert forall|l: Seq<char>|
        #[trigger] windows_to_hide_spec(labels, active).contains(l) <==> (labels.contains(l)
            && pred(l)) by {
        if labels.contains(l) && pred(l) {
            let k = choose|k: int| 0 <= k < labels.len() && labels[k] == l;
            labels.lemma_filter_contains(pred, k);
        }
        if labels.filter(pred).contains(l) {
            labels.lemma_filter_contains_rev(pred, l);
        }
    }
}

} // verus!
