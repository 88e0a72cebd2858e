use aws_lambda_events::query_map::QueryMap;
use http::{request::Builder, HeaderMap, HeaderValue, Method};
use lambda_web_gateway::request::{
    build_alb_request_body, header_map_to_hash_map, query_map_to_hash_map,
};
use lambda_web_gateway::response::GatewayError;
use std::collections::HashMap;

#[test]
fn test_alb_body() {
    let (parts, body) = Builder::new()
        .method(Method::GET)
        .uri("https://example.com/?k=v")
        .header("key", "value")
        .body("Hello, world!")
        .unwrap()
        .into_parts();
    let query: QueryMap = HashMap::from([("k".to_string(), "v".to_string())]).into();

    let expected = "{\"body\":\"Hello, world!\",\"headers\":{\"key\":\"value\"},\"httpMethod\":\"GET\",\"isBase64Encoded\":false,\"multiValueHeaders\":{},\"multiValueQueryStringParameters\":{},\"path\":\"/\",\"queryStringParameters\":{\"k\":\"v\"},\"requestContext\":{\"elb\":{\"targetGroupArn\":null}}}";
    assert_eq!(
        build_alb_request_body(
            false,
            &query,
            parts.method.as_str(),
            parts.uri.path(),
            &parts.headers,
            body
        )
        .unwrap(),
        expected
    );
}

#[test]
fn test_alb_body_base64() {
    let (parts, body) = Builder::new()
        .method(Method::GET)
        .uri("https://example.com/?k=v")
        .header("key", "value")
        .body(base64::Engine::encode(
            &base64::prelude::BASE64_STANDARD,
            "Hello, world!",
        ))
        .unwrap()
        .into_parts();
    let query: QueryMap = HashMap::from([("k".to_string(), "v".to_string())]).into();

    let expected = "{\"body\":\"SGVsbG8sIHdvcmxkIQ==\",\"headers\":{\"key\":\"value\"},\"httpMethod\":\"GET\",\"isBase64Encoded\":true,\"multiValueHeaders\":{},\"multiValueQueryStringParameters\":{},\"path\":\"/\",\"queryStringParameters\":{\"k\":\"v\"},\"requestContext\":{\"elb\":{\"targetGroupArn\":null}}}";
    assert_eq!(
        build_alb_request_body(
            true,
            &query,
            parts.method.as_str(),
            parts.uri.path(),
            &parts.headers,
            &body
        )
        .unwrap(),
        expected
    );
}

fn sorted(mut pairs: Vec<(String, String)>) -> Vec<(String, String)> {
    pairs.sort();
    pairs
}

fn pair(key: &str, value: &str) -> (String, String) {
    (key.to_string(), value.to_string())
}

#[test]
fn the_last_value_of_a_query_parameter_wins() {
    let query: QueryMap = HashMap::from([
        (
            "k".to_string(),
            vec!["first".to_string(), "second".to_string(), "last".to_string()],
        ),
        ("single".to_string(), vec!["one".to_string()]),
    ])
    .into();
    assert_eq!(
        sorted(query_map_to_hash_map(&query)),
        vec![pair("k", "last"), pair("single", "one")]
    );
}

#[test]
fn an_empty_query_gives_no_pairs() {
    let query = QueryMap::default();
    assert_eq!(query_map_to_hash_map(&query), Vec::<(String, String)>::new());
}

#[test]
fn the_last_value_of_a_header_wins() {
    let mut headers = HeaderMap::new();
    headers.append("accept", "text/html".parse().unwrap());
    headers.append("Accept", "application/json".parse().unwrap());
    headers.append("host", "example.com".parse().unwrap());
    assert_eq!(
        sorted(header_map_to_hash_map(&headers).unwrap()),
        vec![pair("accept", "application/json"), pair("host", "example.com")]
    );
}

#[test]
fn a_header_that_is_not_text_cannot_be_carried() {
    let mut headers = HeaderMap::new();
    headers.append("x-raw", HeaderValue::from_bytes(b"\xff\xfe").unwrap());
    headers.append("x-raw", "text".parse().unwrap());
    assert_eq!(header_map_to_hash_map(&headers), None);
    assert_eq!(
        build_alb_request_body(false, &QueryMap::default(), "GET", "/", &headers, ""),
        Err(GatewayError::TranslationError)
    );
}

#[test]
fn payload_members_are_escaped_and_sorted() {
    let mut headers = HeaderMap::new();
    headers.append("x-b", "2".parse().unwrap());
    headers.append("x-a", "say \"hi\"".parse().unwrap());
    let query: QueryMap = HashMap::from([
        ("z".to_string(), vec!["1".to_string(), "2".to_string()]),
        ("a b".to_string(), vec!["\\".to_string()]),
    ])
    .into();
    let expected = "{\"body\":\"line\\nbreak\",\"headers\":{\"x-a\":\"say \\\"hi\\\"\",\"x-b\":\"2\"},\"httpMethod\":\"POST\",\"isBase64Encoded\":false,\"multiValueHeaders\":{},\"multiValueQueryStringParameters\":{},\"path\":\"/a/b\",\"queryStringParameters\":{\"a b\":\"\\\\\",\"z\":\"2\"},\"requestContext\":{\"elb\":{\"targetGroupArn\":null}}}";
    assert_eq!(
        build_alb_request_body(false, &query, "POST", "/a/b", &headers, "line\nbreak").unwrap(),
        expected
    );
}

#[test]
fn payload_of_a_bare_request() {
    let expected = "{\"body\":\"\",\"headers\":{},\"httpMethod\":\"DELETE\",\"isBase64Encoded\":true,\"multiValueHeaders\":{},\"multiValueQueryStringParameters\":{},\"path\":\"/\",\"queryStringParameters\":{},\"requestContext\":{\"elb\":{\"targetGroupArn\":null}}}";
    assert_eq!(
        build_alb_request_body(
            true,
            &QueryMap::default(),
            "DELETE",
            "/",
            &HeaderMap::new(),
            ""
        )
        .unwrap(),
        expected
    );
}

#[test]
fn every_name_in_the_map_is_carried() {
    let mut headers = HeaderMap::new();
    headers.append(
        http::HeaderName::from_lowercase(b"x\"quoted").unwrap(),
        "1".parse().unwrap(),
    );
    headers.append("x-plain", "2".parse().unwrap());
    assert_eq!(
        sorted(header_map_to_hash_map(&headers).unwrap()),
        vec![pair("x\"quoted", "1"), pair("x-plain", "2")]
    );
}

#[test]
fn header_pairs_come_in_the_order_of_first_occurrence() {
    let mut headers = HeaderMap::new();
    headers.append("b", "1".parse().unwrap());
    headers.append("a", "2".parse().unwrap());
    headers.append("b", "3".parse().unwrap());
    assert_eq!(
        header_map_to_hash_map(&headers).unwrap(),
        vec![pair("b", "3"), pair("a", "2")]
    );
}
