//! The response relay: what the caller receives for each upstream outcome.
//! An upstream response must declare its body length; its body is copied
//! into the caller-facing response, with a sentinel text for an empty body.

use vstd::prelude::*;

verus! {

/// A relay failure, surfaced to the caller as a server error.
#[derive(Debug)]
pub enum RelayError {
    /// The upstream response declared no body length.
    InvalidLength,
    /// The upstream body could not be read; carries the transport error text.
    InvalidBody(String),
}

impl RelayError {
    /// The human-readable cause, used as the body of the caller-facing
    /// server error.
    pub fn message(&self) -> (r: String)
        ensures
            match self {
                RelayError::InvalidLength => r@ == "Invalid length received"@,
                RelayError::InvalidBody(e) => r@ == "Could not fetch body: "@ + e@,
            },
    {
        match self {
            RelayError::InvalidLength => String::from_str("Invalid length received"),
            RelayError::InvalidBody(e) => {
                let mut m = String::from_str("Could not fetch body: ");
                m.append(e.as_str());
                m
            },
        }
    }
}

/// What the original caller receives: a status code and a body.
pub struct CallerResponse {
    pub status: u16,
    pub body: Vec<u8>,
}

/// The bytes of the sentinel body `End of stream`, sent when the upstream
/// body was empty.
pub open spec fn end_of_stream_bytes() -> Seq<u8> {
    seq![69u8, 110u8, 100u8, 32u8, 111u8, 102u8, 32u8, 115u8, 116u8, 114u8, 101u8, 97u8, 109u8]
}

/// The sentinel body `End of stream` as bytes.
fn end_of_stream_body() -> (r: Vec<u8>)
    ensures
        r@ == end_of_stream_bytes(),
{
    let mut v: Vec<u8> = Vec::new();
    v.push(69u8);
    v.push(110u8);
    v.push(100u8);
    v.push(32u8);
    v.push(111u8);
    v.push(102u8);
    v.push(32u8);
    v.push(115u8);
    v.push(116u8);
    v.push(114u8);
    v.push(101u8);
    v.push(97u8);
    v.push(109u8);
    proof {
        assert(v@ =~= end_of_stream_bytes());
    }
    v
}

/// The declared body length of the upstream response, or the
/// `InvalidLength` failure exactly when none was declared. No body length is
/// recoverable from a stream of unknown length, so the relay refuses it.
pub fn check_length(content_length: Option<u64>) -> (r: Result<u64, RelayError>)
    ensures
        match content_length {
            Some(n) => r == Ok::<u64, RelayError>(n),
            None => r == Err::<u64, RelayError>(RelayError::InvalidLength),
        },
{
    match content_length {
        Some(n) => Ok(n),
        None => Err(RelayError::InvalidLength),
    }
}

/// The caller-facing response for an upstream body read: a failed read is
/// the `InvalidBody` failure with the error text; an empty body becomes
/// status 200 with the sentinel `End of stream`; any other body is passed on
/// unchanged with status 200.
pub fn relay_body(body: Result<Vec<u8>, String>) -> (r: Result<CallerResponse, RelayError>)
    ensures
        match body {
            Ok(b) => r matches Ok(resp) && resp.status == 200 && (if b.len() == 0 {
                resp.body@ == end_of_stream_bytes()
            } else {
                resp.body@ == b@
            }),
            Err(e) => r == Err::<CallerResponse, RelayError>(RelayError::InvalidBody(e)),
        },
{
    match body {
        Ok(b) => {
            if b.len() == 0 {
                Ok(CallerResponse { status: 200, body: end_of_stream_body() })
            } else {
                Ok(CallerResponse { status: 200, body: b })
            }
        },
        Err(e) => Err(RelayError::InvalidBody(e)),
    }
}

} // verus!
