//! Persisted user settings: API keys and extra scan locations the user has
//! configured, plus their chosen custom theme file. They are stored as a
//! plain JSON file inside the app's config directory; reading and writing
//! that file happens where the file system is.

use vstd::prelude::*;

use crate::mod_sites::{validate_all, validate_all_spec};
use crate::text::concat;

verus! {

/// A user-added modding site: `id` is a short slug used internally (as the
/// window label and to match the Mods tab's tab button to it), `name` is
/// what's shown on the tab, and `url` is where it opens.
#[derive(Debug, PartialEq)]
pub struct CustomModSite {
    pub id: String,
    pub name: String,
    pub url: String,
}

impl Clone for CustomModSite {
    fn clone(&self) -> (r: Self)
        ensures
            r == *self,
    {
        CustomModSite { id: self.id.clone(), name: self.name.clone(), url: self.url.clone() }
    }
}

/// Everything the user has configured.
#[derive(Debug, Clone, PartialEq)]
pub struct Settings {
    pub itchio_api_key: Option<String>,
    pub nexus_api_key: Option<String>,
    pub custom_theme_path: Option<String>,
    pub extra_steam_roots: Vec<String>,
    pub extra_gog_roots: Vec<String>,
    pub extra_legendary_paths: Vec<String>,
    /// Mod sites the user has added beyond the built-in Nexus Mods/CurseForge
    /// ones (e.g. ModDB, GameBanana, Thunderstore, Modrinth, or any other
    /// modding site), shown as extra tabs on the Mods tab.
    pub custom_mod_sites: Vec<CustomModSite>,
}

impl Default for Settings {
    /// The settings of a fresh install: nothing configured.
    fn default() -> (s: Self)
        ensures
            s.itchio_api_key is None,
            s.nexus_api_key is None,
            s.custom_theme_path is None,
            s.extra_steam_roots@.len() == 0,
            s.extra_gog_roots@.len() == 0,
            s.extra_legendary_paths@.len() == 0,
            s.custom_mod_sites@.len() == 0,
    {
        Settings {
            itchio_api_key: None,
            nexus_api_key: None,
            custom_theme_path: None,
            extra_steam_roots: Vec::new(),
            extra_gog_roots: Vec::new(),
            extra_legendary_paths: Vec::new(),
            custom_mod_sites: Vec::new(),
        }
    }
}

/// Why settings could not be loaded or saved.
#[derive(Debug, PartialEq)]
pub enum SettingsError {
    Read(String),
    Write(String),
    Parse(String),
    Validation(String),
}

impl SettingsError {
    pub open spec fn message_spec(&self) -> Seq<char> {
        match self {
            SettingsError::Read(m) => "failed to read settings file: "@ + m@,
            SettingsError::Write(m) => "failed to write settings file: "@ + m@,
            SettingsError::Parse(m) => "failed to parse settings file: "@ + m@,
            SettingsError::Validation(m) => "invalid settings: "@ + m@,
        }
    }

    /// The human-readable description of the error.
    pub fn message(&self) -> (r: String)
        ensures
            r@ == self.message_spec(),
    {
        match self {
            SettingsError::Read(m) => concat("failed to read settings file: ", m.as_str()),
            SettingsError::Write(m) => concat("failed to write settings file: ", m.as_str()),
            SettingsError::Parse(m) => concat("failed to parse settings file: ", m.as_str()),
            SettingsError::Validation(m) => concat("invalid settings: ", m.as_str()),
        }
    }
}

/// The check that saving makes before anything is written: invalid custom
/// mod sites (bad or non-http URLs, empty names, id collisions) are refused
/// rather than silently persisted.
pub fn validate_for_save(settings: &Settings) -> (r: Result<(), SettingsError>)
    ensures
        match validate_all_spec(settings.custom_mod_sites@) {
            Ok(()) => r is Ok,
            Err(e) => r matches Err(SettingsError::Validation(m)) && m@ == e.message_spec(),
        },
{
    match validate_all(settings.custom_mod_sites.as_slice()) {
        Ok(()) => Ok(()),
        Err(e) => Err(SettingsError::Validation(e.message())),
    }
}

} // verus!
