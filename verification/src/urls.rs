//! The one outside computation in the forwarding path: turning a rewritten
//! target string into the URL value that the HTTP client dispatches on.

use vstd::prelude::*;

verus! {

#[verifier::external_type_specification]
#[verifier::external_body]
pub struct ExUrl(reqwest::Url);

/// Whether `reqwest`'s URL parser accepts this text. The outcome of
/// `reqwest::Url::parse` is a function of the text alone.
pub uninterp spec fn url_ok(s: Seq<char>) -> bool;

/// Relies on `reqwest::Url::parse`: it returns a URL value or an error, never
/// panics, and its outcome depends only on the input text.
#[verifier::external_body]
pub fn parse_url(s: &str) -> (r: Option<reqwest::Url>)
    ensures
        r is Some <==> url_ok(s@),
{
    match reqwest::Url::parse(s) {
        Ok(u) => Some(u),
        Err(_) => None,
    }
}

} // verus!
