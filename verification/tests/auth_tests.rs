use http::HeaderMap;
use lambda_web_gateway::auth::is_authorized;
use lambda_web_gateway::config::{AuthMode, Config};

#[test]
fn test_open_auth() {
    let headers = HeaderMap::new();
    let config = Config {
        auth_mode: AuthMode::Open,
        ..Default::default()
    };
    assert!(is_authorized(&headers, &config));
}

#[test]
fn test_api_key_auth() {
    let config = Config {
        auth_mode: AuthMode::ApiKey,
        api_keys: vec!["test".to_string()],
        ..Default::default()
    };

    let mut headers = HeaderMap::new();
    headers.insert("x-api-key", "test".parse().unwrap());
    assert!(is_authorized(&headers, &config));

    headers.insert("x-api-key", "invalid".parse().unwrap());
    assert!(!is_authorized(&headers, &config));

    headers.insert("authorization", "Bearer test".parse().unwrap());
    assert!(is_authorized(&headers, &config));

    headers.insert("authorization", "Bearer invalid".parse().unwrap());
    assert!(!is_authorized(&headers, &config));
}

#[test]
fn test_multi_api_keys() {
    let config = Config {
        auth_mode: AuthMode::ApiKey,
        api_keys: vec!["test1".to_string(), "test2".to_string()],
        ..Default::default()
    };

    let mut headers = HeaderMap::new();
    headers.insert("x-api-key", "test1".parse().unwrap());
    assert!(is_authorized(&headers, &config));

    headers.insert("x-api-key", "test2".parse().unwrap());
    assert!(is_authorized(&headers, &config));

    headers.insert("x-api-key", "invalid".parse().unwrap());
    assert!(!is_authorized(&headers, &config));
}

#[test]
fn api_key_mode_refuses_a_request_without_credentials() {
    let config = Config {
        auth_mode: AuthMode::ApiKey,
        api_keys: vec!["test".to_string()],
        ..Default::default()
    };
    assert!(!is_authorized(&HeaderMap::new(), &config));
}

#[test]
fn bearer_token_alone_is_accepted() {
    let config = Config {
        auth_mode: AuthMode::ApiKey,
        api_keys: vec!["test".to_string()],
        ..Default::default()
    };
    let mut headers = HeaderMap::new();
    headers.insert("authorization", "Bearer test".parse().unwrap());
    assert!(is_authorized(&headers, &config));
}

#[test]
fn authorization_without_bearer_scheme_presents_nothing() {
    let config = Config {
        auth_mode: AuthMode::ApiKey,
        api_keys: vec!["test".to_string()],
        ..Default::default()
    };
    let mut headers = HeaderMap::new();
    headers.insert("authorization", "test".parse().unwrap());
    assert!(!is_authorized(&headers, &config));
    headers.insert("authorization", "bearer test".parse().unwrap());
    assert!(!is_authorized(&headers, &config));
}

#[test]
fn header_names_are_matched_whatever_their_case() {
    let config = Config {
        auth_mode: AuthMode::ApiKey,
        api_keys: vec!["test".to_string()],
        ..Default::default()
    };
    let mut headers = HeaderMap::new();
    headers.insert("X-Api-Key", "test".parse().unwrap());
    assert!(is_authorized(&headers, &config));
}

#[test]
fn a_key_that_is_not_text_falls_back_to_the_bearer_token() {
    let config = Config {
        auth_mode: AuthMode::ApiKey,
        api_keys: vec!["test".to_string()],
        ..Default::default()
    };
    let mut headers = HeaderMap::new();
    headers.insert("x-api-key", http::HeaderValue::from_bytes(b"\xfftest").unwrap());
    assert!(!is_authorized(&headers, &config));
    headers.insert("authorization", "Bearer test".parse().unwrap());
    assert!(is_authorized(&headers, &config));
}

#[test]
fn only_the_first_value_of_a_header_is_looked_at() {
    let config = Config {
        auth_mode: AuthMode::ApiKey,
        api_keys: vec!["test".to_string()],
        ..Default::default()
    };
    let mut headers = HeaderMap::new();
    headers.append("x-api-key", "invalid".parse().unwrap());
    headers.append("x-api-key", "test".parse().unwrap());
    assert!(!is_authorized(&headers, &config));
}
