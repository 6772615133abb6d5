//! GameJolt integration status.
//!
//! Unlike Steam/GOG/Epic/itch.io, GameJolt does not expose any API suitable
//! for "list the games this user owns or has installed": its official Game
//! API is scoped per game behind that game's own private key (for trophies,
//! scores and data-store entries), its desktop client was discontinued so
//! there is no local install manifest to read, and there is no public,
//! documented "my library" endpoint. Zegra therefore reports the platform as
//! unsupported, so the UI can say so honestly.

use vstd::prelude::*;

verus! {

/// Why GameJolt games are not listed.
pub const UNSUPPORTED_REASON: &'static str = "GameJolt has no public API for listing a user's owned or installed games (its Game API is scoped per-game via a private key, for trophies/scores only). GameJolt support is not available yet.";

} // verus!
