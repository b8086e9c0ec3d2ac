use typesafe_api::client::{DEFAULT_BASE_URL, ENV_API_KEY};
use typesafe_api::{to_error, Duration, Error, RetryPolicy, TypeSafeClient};

#[test]
fn new_uses_defaults() {
    let c = TypeSafeClient::new("key-1".to_string(), reqwest::Client::new());
    assert_eq!(c.api_key(), "key-1");
    assert_eq!(c.base_url(), "https://api.typesafe.ai/v1");
    assert_eq!(c.base_url(), DEFAULT_BASE_URL);
    assert_eq!(c.retry_policy().max_retries, 3);
    assert_eq!(c.retry_policy().initial_backoff, Duration::from_millis(500));
}

#[test]
fn urls_follow_base_url() {
    let c = TypeSafeClient::new("k".to_string(), reqwest::Client::new());
    assert_eq!(c.system_one_url(), "https://api.typesafe.ai/v1/systemone");
    assert_eq!(c.models_url(), "https://api.typesafe.ai/v1/models");
    let c = c.with_base_url("http://localhost:8080".to_string());
    assert_eq!(c.system_one_url(), "http://localhost:8080/systemone");
    assert_eq!(c.models_url(), "http://localhost:8080/models");
    assert_eq!(c.api_key(), "k");
}

#[test]
fn with_retry_policy_replaces_only_the_policy() {
    let c = TypeSafeClient::new("k".to_string(), reqwest::Client::new())
        .with_base_url("http://mock".to_string())
        .with_retry_policy(RetryPolicy::none());
    assert_eq!(c.retry_policy().max_retries, 0);
    assert_eq!(c.base_url(), "http://mock");
    assert_eq!(c.api_key(), "k");
}

#[test]
fn from_env_with_and_without_key() {
    let c = TypeSafeClient::from_env(Some("secret".to_string()), reqwest::Client::new).unwrap();
    assert_eq!(c.api_key(), "secret");
    match TypeSafeClient::from_env(None, || -> reqwest::Client { panic!("not called without a key") }) {
        Err(Error::Authentication(m)) => {
            assert_eq!(m, "TYPESAFE_API_KEY is not set");
            assert_eq!(m, format!("{ENV_API_KEY} is not set"));
        }
        other => panic!("unexpected {:?}", other.map(|_| ())),
    }
}

#[test]
fn status_codes_map_to_errors() {
    assert!(matches!(to_error(401, "a".into()), Error::Authentication(b) if b == "a"));
    assert!(matches!(to_error(422, "v".into()), Error::Validation(b) if b == "v"));
    assert!(matches!(to_error(429, "r".into()), Error::RateLimited(b) if b == "r"));
    assert!(matches!(to_error(529, "o".into()), Error::Overloaded(b) if b == "o"));
    assert!(matches!(to_error(500, "x".into()), Error::Api { status: 500, body } if body == "x"));
    assert!(matches!(to_error(404, String::new()), Error::Api { status: 404, .. }));
    assert!(matches!(to_error(200, String::new()), Error::Api { status: 200, .. }));
}
