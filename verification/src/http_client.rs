//! The "fetch JSON over HTTP with some headers" abstraction used by the
//! itch.io and Nexus Mods clients. Kept generic over headers (rather than
//! baking in a single auth scheme) since itch.io uses a Bearer token while
//! Nexus Mods uses a custom `apikey` header.
//!
//! Real network access sits behind this trait, so callers (and tests) can
//! supply canned responses instead of hitting the network.

use vstd::prelude::*;

use crate::json::JsonValue;

verus! {

/// A response: its HTTP status and its body, read as JSON.
#[derive(Debug, PartialEq)]
pub struct HttpResponse {
    pub status: u16,
    pub body: JsonValue,
}

/// The view of a request's headers: each name with its value.
pub open spec fn headers_view(headers: Seq<(&str, &str)>) -> Seq<(Seq<char>, Seq<char>)> {
    headers.map_values(|h: (&str, &str)| (h.0@, h.1@))
}

/// Something that can `GET` a URL with the given headers and hand back the
/// JSON response, or a description of why the request failed.
pub trait HttpClient {
    /// Whether `r` is an answer this client gives to a `GET` of `url` with
    /// `headers`: callers learn from it which request a response answers.
    /// A client may say more of its answers; by default any response may
    /// answer any request.
    open spec fn answers(
        &self,
        url: Seq<char>,
        headers: Seq<(Seq<char>, Seq<char>)>,
        r: Result<HttpResponse, String>,
    ) -> bool {
        true
    }

    fn get_json(&self, url: &str, headers: &[(&str, &str)]) -> (r: Result<HttpResponse, String>)
        ensures
            self.answers(url@, headers_view(headers@), r),
    ;
}

/// Whether `status` is a success status (`200..300`).
pub open spec fn is_success(status: u16) -> bool {
    200 <= status < 300
}

} // verus!
