use aws_lambda_events::query_map::QueryMap;
use http::{HeaderMap, HeaderValue};
use lambda_web_gateway::config::{AuthMode, Config, LambdaInvokeMode};
use lambda_web_gateway::handler::{handle_invoke_error, handler, health, HandlerAction};
use lambda_web_gateway::response::empty_response;
use std::collections::HashMap;

fn config(auth_mode: AuthMode, mode: LambdaInvokeMode) -> Config {
    Config {
        lambda_function_name: "my-function".to_string(),
        lambda_invoke_mode: mode,
        api_keys: vec!["secret".to_string()],
        auth_mode,
        addr: "0.0.0.0:8000".to_string(),
    }
}

#[test]
fn a_request_that_is_not_authorized_is_answered_with_401() {
    let mut headers = HeaderMap::new();
    headers.insert("content-type", "text/plain".parse().unwrap());
    headers.insert("x-api-key", "wrong".parse().unwrap());
    let action = handler(
        &config(AuthMode::ApiKey, LambdaInvokeMode::Buffered),
        "POST",
        "/",
        &QueryMap::default(),
        &headers,
        b"body",
    );
    assert_eq!(action, HandlerAction::Respond(empty_response(401)));
}

#[test]
fn authorization_is_checked_before_translation() {
    let mut headers = HeaderMap::new();
    headers.insert("x-raw", HeaderValue::from_bytes(b"\xff").unwrap());
    let action = handler(
        &config(AuthMode::ApiKey, LambdaInvokeMode::Buffered),
        "GET",
        "/",
        &QueryMap::default(),
        &headers,
        b"",
    );
    assert_eq!(action, HandlerAction::Respond(empty_response(401)));
}

#[test]
fn a_request_that_cannot_be_translated_is_answered_with_500() {
    let mut headers = HeaderMap::new();
    headers.insert("x-raw", HeaderValue::from_bytes(b"\xff").unwrap());
    let action = handler(
        &config(AuthMode::Open, LambdaInvokeMode::Buffered),
        "GET",
        "/",
        &QueryMap::default(),
        &headers,
        b"",
    );
    assert_eq!(action, HandlerAction::Respond(empty_response(500)));
}

#[test]
fn a_text_request_is_invoked_with_its_text() {
    let mut headers = HeaderMap::new();
    headers.insert("content-type", "application/json".parse().unwrap());
    headers.insert("x-api-key", "secret".parse().unwrap());
    let query: QueryMap = HashMap::from([("k".to_string(), "v".to_string())]).into();
    let action = handler(
        &config(AuthMode::ApiKey, LambdaInvokeMode::ResponseStream),
        "PUT",
        "/items/1",
        &query,
        &headers,
        b"{\"a\":1}",
    );
    assert_eq!(
        action,
        HandlerAction::Invoke {
            mode: LambdaInvokeMode::ResponseStream,
            function_name: "my-function".to_string(),
            payload: "{\"body\":\"{\\\"a\\\":1}\",\"headers\":{\"content-type\":\"application/json\",\"x-api-key\":\"secret\"},\"httpMethod\":\"PUT\",\"isBase64Encoded\":false,\"multiValueHeaders\":{},\"multiValueQueryStringParameters\":{},\"path\":\"/items/1\",\"queryStringParameters\":{\"k\":\"v\"},\"requestContext\":{\"elb\":{\"targetGroupArn\":null}}}".to_string(),
        }
    );
}

#[test]
fn a_binary_request_is_invoked_with_base64() {
    let mut headers = HeaderMap::new();
    headers.insert("content-type", "image/png".parse().unwrap());
    let action = handler(
        &config(AuthMode::Open, LambdaInvokeMode::Buffered),
        "POST",
        "/upload",
        &QueryMap::default(),
        &headers,
        b"Hello, world!",
    );
    assert_eq!(
        action,
        HandlerAction::Invoke {
            mode: LambdaInvokeMode::Buffered,
            function_name: "my-function".to_string(),
            payload: "{\"body\":\"SGVsbG8sIHdvcmxkIQ==\",\"headers\":{\"content-type\":\"image/png\"},\"httpMethod\":\"POST\",\"isBase64Encoded\":true,\"multiValueHeaders\":{},\"multiValueQueryStringParameters\":{},\"path\":\"/upload\",\"queryStringParameters\":{},\"requestContext\":{\"elb\":{\"targetGroupArn\":null}}}".to_string(),
        }
    );
}

#[test]
fn the_liveness_probe_is_answered_with_200() {
    assert_eq!(health(), empty_response(200));
}

#[test]
fn a_failed_invocation_is_answered_with_500() {
    assert_eq!(handle_invoke_error(), empty_response(500));
}
