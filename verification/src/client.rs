//! The client's configuration: which API it talks to, with which key, and
//! how it retries. Sending the requests is left to an asynchronous runtime.

use crate::error::Error;
use crate::retry::{is_default_policy, RetryPolicy};
use vstd::string::StringExecFns;
use vstd::prelude::*;

verus! {

/// The API that a client talks to unless told otherwise.
pub const DEFAULT_BASE_URL: &'static str = "https://api.typesafe.ai/v1";

/// The environment variable that holds the API key.
pub const ENV_API_KEY: &'static str = "TYPESAFE_API_KEY";

/// A client for TypeSafe's System One API (`https://api.typesafe.ai/v1`).
///
/// Every model is served by the same evaluation endpoint; the `model` field
/// on each request picks which one handles it.
#[derive(Debug, Clone)]
pub struct TypeSafeClient {
    http: reqwest::Client,
    base_url: String,
    api_key: String,
    retry_policy: RetryPolicy,
}

impl TypeSafeClient {
    /// The base URL that requests go to.
    pub closed spec fn spec_base_url(&self) -> Seq<char> {
        self.base_url@
    }

    /// The API key that requests carry.
    pub closed spec fn spec_api_key(&self) -> Seq<char> {
        self.api_key@
    }

    /// The HTTP client that sends the requests.
    pub closed spec fn spec_http(&self) -> reqwest::Client {
        self.http
    }

    /// How `429` and `529` responses are retried.
    pub closed spec fn spec_retry_policy(&self) -> RetryPolicy {
        self.retry_policy
    }

    /// Build a client with an explicit API key, the default base URL and the
    /// default retry policy, sending its requests through `http`.
    pub fn new(api_key: String, http: reqwest::Client) -> (c: TypeSafeClient)
        ensures
            c.spec_http() == http,
            c.spec_base_url() == DEFAULT_BASE_URL@,
            c.spec_api_key() == api_key@,
            is_default_policy(c.spec_retry_policy()),
    {
        TypeSafeClient {
            http,
            base_url: DEFAULT_BASE_URL.to_owned(),
            api_key,
            retry_policy: RetryPolicy::default(),
        }
    }

    /// Build a client from the value of the `TYPESAFE_API_KEY` environment
    /// variable: `None` where it is not set, which is an authentication error.
    /// The HTTP client is made by `make_http`, called only once the key is
    /// known to be there.
    pub fn from_env<F: FnOnce() -> reqwest::Client>(api_key_var: Option<String>, make_http: F) -> (r:
        Result<TypeSafeClient, Error>)
        requires
            api_key_var is Some ==> make_http.requires(()),
        ensures
            match api_key_var {
                Some(key) => r matches Ok(c) && c.spec_api_key() == key@
                    && make_http.ensures((), c.spec_http())
                    && c.spec_base_url() == DEFAULT_BASE_URL@
                    && is_default_policy(c.spec_retry_policy()),
                None => r matches Err(Error::Authentication(message))
                    && message@ == ENV_API_KEY@ + " is not set"@,
            },
    {
        match api_key_var {
            Some(key) => Ok(TypeSafeClient::new(key, make_http())),
            None => {
                let message = ENV_API_KEY.to_owned().concat(" is not set");
                Err(Error::Authentication(message))
            },
        }
    }

    /// The same client, sending its requests to `base_url`.
    pub fn with_base_url(self, base_url: String) -> (c: TypeSafeClient)
        ensures
            c.spec_base_url() == base_url@,
            c.spec_api_key() == self.spec_api_key(),
            c.spec_retry_policy() == self.spec_retry_policy(),
            c.spec_http() == self.spec_http(),
    {
        let mut c = self;
        c.base_url = base_url;
        c
    }

    /// The same client, retrying `429` and `529` responses as `policy` says.
    pub fn with_retry_policy(self, policy: RetryPolicy) -> (c: TypeSafeClient)
        ensures
            c.spec_base_url() == self.spec_base_url(),
            c.spec_api_key() == self.spec_api_key(),
            c.spec_retry_policy() == policy,
            c.spec_http() == self.spec_http(),
    {
        let mut c = self;
        c.retry_policy = policy;
        c
    }

    /// The base URL that requests go to.
    pub fn base_url(&self) -> (url: &str)
        ensures
            url@ == self.spec_base_url(),
    {
        self.base_url.as_str()
    }

    /// The API key that requests carry as a bearer token.
    pub fn api_key(&self) -> (key: &str)
        ensures
            key@ == self.spec_api_key(),
    {
        self.api_key.as_str()
    }

    /// How `429` and `529` responses are retried.
    pub fn retry_policy(&self) -> (policy: &RetryPolicy)
        ensures
            *policy == self.spec_retry_policy(),
    {
        &self.retry_policy
    }

    /// The HTTP client that sends the requests.
    pub fn http(&self) -> (client: &reqwest::Client)
        ensures
            *client == self.spec_http(),
    {
        &self.http
    }

    /// `POST {base_url}/systemone`: where questions are sent.
    pub fn system_one_url(&self) -> (url: String)
        ensures
            url@ == self.spec_base_url() + "/systemone"@,
    {
        self.base_url.as_str().to_owned().concat("/systemone")
    }

    /// `GET {base_url}/models`: the model names and aliases the account can use.
    pub fn models_url(&self) -> (url: String)
        ensures
            url@ == self.spec_base_url() + "/models"@,
    {
        self.base_url.as_str().to_owned().concat("/models")
    }
}

} // verus!
