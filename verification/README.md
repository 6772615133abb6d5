# Zegra

The library behind Zegra, a game launcher that gathers a player's Steam, GOG,
Epic (via Legendary/Heroic), itch.io and GameJolt libraries in one place, and
opens Nexus Mods, CurseForge and user-added mod sites.

`src/` is written in Verus: every function states its behaviour in
`requires`/`ensures`, and all but seven are proved against it. The seven are
thin wrappers over code the library does not prove, whose contracts are
trusted: `String::push` (`text::push_char`), `Path`'s `==`, `parent` and
`join` (`platforms::steam::paths_equal`, `path_parent`, `path_join`), and the
`url` crate's parsing and building of URLs (`urls::parse_url`,
`urls::build_url_with_path`, `urls::build_url_with_path_and_query`). The
HTTP client is a trait that callers implement: `get_json` promises only that
its response is one of the client's own answers to the request made, which
is how the contracts say what each request sends.

- `vdf` — Valve's KeyValues text format (Steam's `libraryfolders.vdf` and
  `appmanifest_*.acf`): the grammar as spec functions, and a parser proved to
  follow it.
- `platforms` — what each store's files and API responses mean: Steam app
  manifests and library folders, GOG info files, Legendary's
  `installed.json`, itch.io's paginated owned-keys API, Nexus Mods' `nxm://`
  links and download-link API. GameJolt is reported unsupported.
- `library` — merging every platform's results into one library.
- `mod_sites`, `settings`, `theme`, `commands` — resolving and validating mod
  sites, checks before settings are saved and themes are read, and the
  decisions behind the frontend's commands.
- `json`, `urls`, `http_client`, `string_map`, `text` — the values the rest
  works on: JSON documents, parsed URLs (parsed and built by the `url`
  crate), the HTTP client interface, a string map, and character helpers.

`app/` is the program around it: file and network I/O (settings file, local
scans, `reqwest`), serde forms of the library's types, and a command-line
front end with one subcommand per frontend command.
