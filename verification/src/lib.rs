pub mod commands;
pub mod http_client;
pub mod json;
pub mod library;
pub mod mod_sites;
pub mod models;
pub mod platforms;
pub mod settings;
pub mod string_map;
pub mod text;
pub mod theme;
pub mod urls;
pub mod vdf;
