//! The fetching boundary of the library.
//!
//! All network traffic goes through the [`Fetcher`] trait. The library
//! never performs I/O itself: callers hand in an implementation (an HTTP
//! client in a program, a canned responder in a test), and every result
//! proved about the library holds for every possible fetch outcome.

use vstd::prelude::*;
use vstd::string::*;

use crate::errors::FetchError;

verus! {

/// One HTTP GET to perform: the target URL, site-specific header
/// overrides (applied on top of [`default_headers`]), and an optional
/// explicit text encoding for sites that serve legacy character sets.
pub struct FetchRequest {
    pub url: String,
    pub headers: Vec<(String, String)>,
    pub encoding: Option<String>,
}

/// Issues an HTTP GET and returns the decoded response body.
///
/// An implementation fails with a `FetchError` when the transport fails or
/// the response status is not a success. Nothing more is assumed of it:
/// the library's contracts hold whatever text comes back.
pub trait Fetcher {
    fn fetch(&self, request: &FetchRequest) -> Result<String, FetchError>;
}

/// The header set sent with every request unless a site overrides an entry.
pub fn default_headers() -> (r: Vec<(String, String)>)
    ensures
        r.deep_view() =~= seq![
            ("User-Agent"@, "Mozilla/5.0 (Windows NT 10.0; Win64; x64) AppleWebKit/537.36 (KHTML, like Gecko) Chrome/91.0.4472.124 Safari/537.36"@),
            ("Accept"@, "text/html,application/xhtml+xml,application/xml;q=0.9,image/webp,image/apng,*/*;q=0.8"@),
            ("Accept-Language"@, "en-US,en;q=0.9"@),
            ("Accept-Encoding"@, "gzip, deflate, br"@),
            ("Connection"@, "keep-alive"@),
            ("Cache-Control"@, "max-age=0"@),
        ],
{
    let mut r: Vec<(String, String)> = Vec::new();
    r.push((String::from_str("User-Agent"), String::from_str("Mozilla/5.0 (Windows NT 10.0; Win64; x64) AppleWebKit/537.36 (KHTML, like Gecko) Chrome/91.0.4472.124 Safari/537.36")));
    r.push((String::from_str("Accept"), String::from_str("text/html,application/xhtml+xml,application/xml;q=0.9,image/webp,image/apng,*/*;q=0.8")));
    r.push((String::from_str("Accept-Language"), String::from_str("en-US,en;q=0.9")));
    r.push((String::from_str("Accept-Encoding"), String::from_str("gzip, deflate, br")));
    r.push((String::from_str("Connection"), String::from_str("keep-alive")));
    r.push((String::from_str("Cache-Control"), String::from_str("max-age=0")));
    r
}

} // verus!
