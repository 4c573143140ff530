//! Remote peers of the same protocol.

use crate::pieces::{split, split_at_char};
use crate::text::{chars_of, slice, starts_with, string_of};
use vstd::prelude::*;

verus! {

/// A remote server that this one can forward events to.
#[derive(Debug, Clone, PartialEq)]
pub struct Agent {
    pub id: i64,
    pub url: String,
    pub username: String,
    pub password: String,
    pub name: Option<String>,
    pub active: bool,
}

/// The URL without its scheme, where the scheme is `https` or `http`.
pub open spec fn without_scheme(url: Seq<char>) -> Seq<char> {
    if "https://"@.is_prefix_of(url) {
        url.skip("https://"@.len() as int)
    } else if "http://"@.is_prefix_of(url) {
        url.skip("http://"@.len() as int)
    } else {
        url
    }
}

/// Host and port of the URL: what stands between the scheme and the first
/// slash behind it.
pub open spec fn endpoint_of(url: Seq<char>) -> Seq<char> {
    split(without_scheme(url), '/')[0]
}

impl Agent {
    /// The endpoint, `host:port`, that the agent's URL leads to.
    pub fn endpoint(&self) -> (r: String)
        ensures
            r@ == endpoint_of(self.url@),
    {
        let url = chars_of(self.url.as_str());
        let https = chars_of("https://");
        let http = chars_of("http://");
        let rest = if starts_with(&url, &https) {
            slice(&url, https.len(), url.len())
        } else if starts_with(&url, &http) {
            slice(&url, http.len(), url.len())
        } else {
            slice(&url, 0, url.len())
        };
        assert(url@.subrange(0, url@.len() as int) == url@);
        let parts = split_at_char(&rest, '/');
        assert(crate::pieces::views(parts@)[0] == parts@[0]@);
        string_of(&parts[0])
    }
}

} // verus!
