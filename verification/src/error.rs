//! The errors that a request to the API can end in.

use vstd::prelude::*;

verus! {

/// Errors returned by the TypeSafe API or the underlying transport.
#[derive(Debug)]
pub enum Error {
    /// `401 Unauthorized`: missing or invalid API key.
    Authentication(String),
    /// `422 Unprocessable Entity`: the request body failed validation.
    Validation(String),
    /// `429 Too Many Requests`: rate limit exceeded, even after retries.
    RateLimited(String),
    /// `529 Overloaded`: TypeSafe is temporarily overloaded, even after retries.
    Overloaded(String),
    /// Any other non-2xx response.
    Api { status: u16, body: String },
    /// The transport itself failed (DNS, TLS, connection reset, etc).
    Transport(reqwest::Error),
    /// The response body could not be decoded as the expected JSON shape.
    Decode(serde_json::Error),
}

/// The error that a response of status `status` and body `body` stands for.
pub open spec fn spec_status_error(status: u16, body: String) -> Error {
    if status == 401 {
        Error::Authentication(body)
    } else if status == 422 {
        Error::Validation(body)
    } else if status == 429 {
        Error::RateLimited(body)
    } else if status == 529 {
        Error::Overloaded(body)
    } else {
        Error::Api { status, body }
    }
}

/// Each of `401`, `422`, `429` and `529` has an error kind of its own that no
/// other status gives; every other status is an `Api` error carrying that
/// status, and every error carries the response's body.
pub proof fn lemma_status_error_kinds(status: u16, body: String)
    ensures
        spec_status_error(status, body) is Authentication <==> status == 401,
        spec_status_error(status, body) is Validation <==> status == 422,
        spec_status_error(status, body) is RateLimited <==> status == 429,
        spec_status_error(status, body) is Overloaded <==> status == 529,
        status != 401 && status != 422 && status != 429 && status != 529 ==> spec_status_error(
            status,
            body,
        ) == (Error::Api { status, body }),
        match spec_status_error(status, body) {
            Error::Authentication(b) => b == body,
            Error::Validation(b) => b == body,
            Error::RateLimited(b) => b == body,
            Error::Overloaded(b) => b == body,
            Error::Api { status: s, body: b } => s == status && b == body,
            _ => false,
        },
{
}

/// The error for a response that was not a success: `401`, `422`, `429` and
/// `529` each have a variant of their own, any other status is `Api`.
pub fn to_error(status: u16, body: String) -> (e: Error)
    ensures
        e == spec_status_error(status, body),
        status == 401 <==> e is Authentication,
        status == 422 <==> e is Validation,
        status == 429 <==> e is RateLimited,
        status == 529 <==> e is Overloaded,
        status != 401 && status != 422 && status != 429 && status != 529 ==> e == (Error::Api {
            status,
            body,
        }),
{
    match status {
        401 => Error::Authentication(body),
        422 => Error::Validation(body),
        429 => Error::RateLimited(body),
        529 => Error::Overloaded(body),
        code => Error::Api { status: code, body },
    }
}

} // verus!
