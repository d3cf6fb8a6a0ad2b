//! Planning for the inbound listener: capture the caller's identity from the
//! connection, rewrite the target against the local gateway, and carry the
//! stripped caller address as the forwarding-identity header value.

use vstd::prelude::*;
use crate::discovery::{find_char, find_char_at, lemma_find_char};
use crate::urls::{parse_url, url_ok};

verus! {

/// The text before the first `:` of an address, so a caller address with a
/// port suffix keeps only its host part.
pub open spec fn strip_port(s: Seq<char>) -> Seq<char> {
    s.take(find_char(s, ':', 0))
}

/// The host part of an address: everything before its first `:`.
pub fn host_without_port(s: &str) -> (r: &str)
    ensures
        r@ == strip_port(s@),
{
    let j = find_char_at(s, ':', 0);
    proof {
        lemma_find_char(s@, ':', 0);
    }
    s.substring_char(0, j)
}

/// A character acceptable in an HTTP header value: visible ASCII or space,
/// or horizontal tab. This is the byte rule that the `http` crate's
/// header-value constructor applies to UTF-8 text.
pub open spec fn valid_header_char(c: char) -> bool {
    ((c as u32) >= 32 && (c as u32) < 127) || c == '\t'
}

/// Whether every character of the text may stand in a header value.
pub open spec fn valid_header(s: Seq<char>) -> bool {
    forall|i: int| 0 <= i < s.len() ==> valid_header_char(s[i])
}

/// Whether the text may stand as an HTTP header value.
fn check_header_value(s: &str) -> (r: bool)
    ensures
        r == valid_header(s@),
{
    let n = s.unicode_len();
    let mut i: usize = 0;
    while i < n
        invariant
            0 <= i <= n,
            n == s@.len(),
            forall|k: int| 0 <= k < i ==> valid_header_char(s@[k]),
        decreases n - i,
    {
        let c = s.get_char(i);
        if !((c as u32 >= 32 && (c as u32) < 127) || c == '\t') {
            return false;
        }
        i = i + 1;
    }
    true
}

/// Why an inbound request was refused before it was forwarded.
#[derive(Debug)]
pub enum InboundError {
    /// The caller address was missing or cannot stand in a header value.
    AddressParse,
    /// The rewritten target is not a valid URL.
    UriBuild,
}

impl InboundError {
    /// The human-readable cause, used as the body of the caller-facing
    /// client error.
    pub fn message(&self) -> (r: String)
        ensures
            match self {
                InboundError::AddressParse => r@ == "Invalid Address"@,
                InboundError::UriBuild => r@ == "Invalid URI"@,
            },
    {
        match self {
            InboundError::AddressParse => String::from_str("Invalid Address"),
            InboundError::UriBuild => String::from_str("Invalid URI"),
        }
    }
}

/// A rewritten inbound request, ready to dispatch: the target text and its
/// parsed URL, and the stripped caller address for the `X-Forwarded-For`
/// header.
pub struct InboundPlan {
    pub target: String,
    pub url: reqwest::Url,
    pub forwarded_for: String,
}

/// The forwarding plan for one inbound request. A missing caller address, or
/// one whose host part cannot stand in a header value, is refused as an
/// address failure; a rewritten target that the URL parser refuses is a URI
/// failure; otherwise the plan carries the gateway base followed by the
/// original path as its target and the stripped caller address as the
/// forwarding identity.
pub fn plan_inbound(remote_addr: Option<&str>, path: &str, gateway_base: &str) -> (r: Result<
    InboundPlan,
    InboundError,
>)
    ensures
        match remote_addr {
            None => r == Err::<InboundPlan, InboundError>(InboundError::AddressParse),
            Some(a) => ({
                let who = strip_port(a@);
                let target = gateway_base@ + path@;
                if !valid_header(who) {
                    r == Err::<InboundPlan, InboundError>(InboundError::AddressParse)
                } else if !url_ok(target) {
                    r == Err::<InboundPlan, InboundError>(InboundError::UriBuild)
                } else {
                    r matches Ok(p) && p.target@ == target && p.forwarded_for@ == who
                }
            }),
        },
{
    match remote_addr {
        None => Err(InboundError::AddressParse),
        Some(a) => {
            let who = host_without_port(a);
            if !check_header_value(who) {
                return Err(InboundError::AddressParse);
            }
            let mut target = String::from_str(gateway_base);
            target.append(path);
            match parse_url(target.as_str()) {
                None => Err(InboundError::UriBuild),
                Some(url) => Ok(InboundPlan { target, url, forwarded_for: who.to_owned() }),
            }
        },
    }
}

} // verus!
