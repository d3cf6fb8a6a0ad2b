//! Planning for the outbound gateway: resolve the requested service name
//! from the `Host` header, rebuild the upstream target with path and query,
//! and select one backend from a resolved list.

use vstd::prelude::*;
use crate::backend::{Backend, BackendModel};
use crate::inbound::{host_without_port, strip_port};
use crate::urls::{parse_url, url_ok};

verus! {

/// Why an outbound request was refused before it was dispatched.
#[derive(Debug)]
pub enum OutboundError {
    /// No service name could be extracted from the `Host` header.
    ServiceResolution,
    /// The rebuilt upstream target is not a valid URL.
    UriBuild,
}

impl OutboundError {
    /// The human-readable cause, used as the body of the caller-facing
    /// error.
    pub fn message(&self) -> (r: String)
        ensures
            match self {
                OutboundError::ServiceResolution => r@ == "Invalid service requested"@,
                OutboundError::UriBuild => r@ == "Invalid URI"@,
            },
    {
        match self {
            OutboundError::ServiceResolution => String::from_str("Invalid service requested"),
            OutboundError::UriBuild => String::from_str("Invalid URI"),
        }
    }
}

/// The upstream target text: the base, the path, and the query string after
/// a `?` when one was given.
pub open spec fn outbound_target(base: Seq<char>, path: Seq<char>, query: Seq<char>) -> Seq<
    char,
> {
    if query.len() == 0 {
        base + path
    } else {
        base + path + seq!['?'] + query
    }
}

/// A rewritten outbound request, ready to dispatch: the resolved service
/// name, the target text and its parsed URL.
pub struct OutboundPlan {
    pub service: String,
    pub target: String,
    pub url: reqwest::Url,
}

/// The forwarding plan for one gateway request. The service name is the host
/// part of the `Host` header with any port stripped; an empty name is a
/// resolution failure; a rebuilt target that the URL parser refuses is a URI
/// failure; otherwise the plan carries the resolved name and the target made
/// of base, path and query.
pub fn plan_outbound(host: &str, path: &str, query: &str, base: &str) -> (r: Result<
    OutboundPlan,
    OutboundError,
>)
    ensures
        ({
            let svc = strip_port(host@);
            let target = outbound_target(base@, path@, query@);
            if svc.len() == 0 {
                r == Err::<OutboundPlan, OutboundError>(OutboundError::ServiceResolution)
            } else if !url_ok(target) {
                r == Err::<OutboundPlan, OutboundError>(OutboundError::UriBuild)
            } else {
                r matches Ok(p) && p.service@ == svc && p.target@ == target
            }
        }),
{
    let svc = host_without_port(host);
    if svc.unicode_len() == 0 {
        return Err(OutboundError::ServiceResolution);
    }
    let mut target = String::from_str(base);
    target.append(path);
    if query.unicode_len() > 0 {
        target.append("?");
        target.append(query);
        proof {
            reveal_strlit("?");
            assert("?"@ =~= seq!['?']);
        }
    }
    match parse_url(target.as_str()) {
        None => Err(OutboundError::UriBuild),
        Some(url) => Ok(OutboundPlan { service: svc.to_owned(), target, url }),
    }
}

/// A backend selection policy: what a backend's counters are compared by.
pub enum Policy {
    /// Prefer the backend with the fewest in-flight requests.
    LeastOutstanding,
    /// Prefer the backend with the lowest running mean round-trip time.
    LeastMeanRtt,
}

impl Default for Policy {
    /// The default policy prefers the fewest in-flight requests.
    fn default() -> (r: Self)
        ensures
            r == Policy::LeastOutstanding,
    {
        Policy::LeastOutstanding
    }
}

/// The counter a policy compares backends by.
pub open spec fn policy_key(p: Policy, b: BackendModel) -> u64 {
    match p {
        Policy::LeastOutstanding => b.reqs,
        Policy::LeastMeanRtt => b.rtt_mean,
    }
}

/// The policy's counter of one backend.
fn key_of(policy: &Policy, b: &Backend) -> (k: u64)
    ensures
        k == policy_key(*policy, b@),
{
    match policy {
        Policy::LeastOutstanding => b.reqs,
        Policy::LeastMeanRtt => b.rtt_mean,
    }
}

/// Selects the backend to dispatch to: `None` exactly when the list is
/// empty, and otherwise the first backend whose policy counter is minimal
/// over the whole list.
pub fn select_backend(policy: Policy, backends: &Vec<Backend>) -> (r: Option<usize>)
    ensures
        r is None <==> backends.len() == 0,
        r matches Some(i) ==> i < backends.len() && (forall|j: int|
            0 <= j < backends.len() ==> policy_key(policy, backends@[i as int]@) <= policy_key(
                policy,
                backends@[j]@,
            )) && (forall|j: int|
            0 <= j < i ==> policy_key(policy, backends@[j]@) > policy_key(
                policy,
                backends@[i as int]@,
            )),
{
    if backends.len() == 0 {
        return None;
    }
    let mut best: usize = 0;
    let mut i: usize = 1;
    while i < backends.len()
        invariant
            0 <= best < i <= backends.len(),
            forall|j: int|
                0 <= j < i ==> policy_key(policy, backends@[best as int]@) <= policy_key(
                    policy,
                    backends@[j]@,
                ),
            forall|j: int|
                0 <= j < best ==> policy_key(policy, backends@[j]@) > policy_key(
                    policy,
                    backends@[best as int]@,
                ),
        decreases backends.len() - i,
    {
        let cur = key_of(&policy, &backends[i]);
        let b = key_of(&policy, &backends[best]);
        if cur < b {
            best = i;
        }
        i = i + 1;
    }
    Some(best)
}

} // verus!
