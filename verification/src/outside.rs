//! The types of outside crates that the library carries without looking inside.

use reqwest::Error as TransportError;
use serde_json::Error as JsonError;
use reqwest::Client as HttpClient;
use serde_json::Value as JsonValue;
use vstd::prelude::*;

verus! {

/// The error type of the `reqwest` HTTP client: the transport failed.
#[verifier::external_type_specification]
#[verifier::external_body]
pub struct ExTransportError(TransportError);

/// The error type of `serde_json`: a value could not be encoded or decoded.
#[verifier::external_type_specification]
#[verifier::external_body]
pub struct ExJsonError(JsonError);

/// The HTTP client of `reqwest`, which sends the requests.
#[verifier::external_type_specification]
#[verifier::external_body]
pub struct ExHttpClient(HttpClient);

/// `Clone` of `reqwest::Client`: a handle on the same connection pool.
/// Nothing is claimed of it.
pub assume_specification[ <HttpClient as std::clone::Clone>::clone ](client: &HttpClient) -> HttpClient;

/// A JSON value of `serde_json`, carried as it is into a request.
#[verifier::external_type_specification]
#[verifier::external_body]
pub struct ExJsonValue(JsonValue);

/// `Clone` of `serde_json::Value`, which `derive(Clone)` writes: it copies the
/// JSON value field by field, so the copy is the same value.
pub assume_specification[ <JsonValue as std::clone::Clone>::clone ](value: &JsonValue) -> (copy: JsonValue)
    ensures
        copy == *value,
;

} // verus!
