use http::HeaderMap;
use lambda_web_gateway::buffered::decode_buffered_response;
use lambda_web_gateway::utils::{
    content_type_needs_base64, transform_body, whether_should_base64_encode,
};

#[test]
fn test_whether_base64_encoded() {
    let mut headers = HeaderMap::new();
    headers.insert("content-type", "application/json".parse().unwrap());
    assert!(!whether_should_base64_encode(&headers));

    headers.insert("content-type", "application/xml".parse().unwrap());
    assert!(!whether_should_base64_encode(&headers));

    headers.insert("content-type", "application/javascript".parse().unwrap());
    assert!(!whether_should_base64_encode(&headers));

    headers.insert("content-type", "text/html".parse().unwrap());
    assert!(!whether_should_base64_encode(&headers));

    headers.insert("content-type", "image/png".parse().unwrap());
    assert!(whether_should_base64_encode(&headers));
}

#[test]
fn test_transform_body() {
    let body: Vec<u8> = b"Hello, world!".to_vec();
    assert_eq!(transform_body(false, &body), "Hello, world!");

    let base64_body = base64::Engine::encode(&base64::prelude::BASE64_STANDARD, &body);
    assert_eq!(transform_body(true, &body), base64_body);
}

#[test]
fn transform_body_encodes_in_the_standard_alphabet_with_padding() {
    assert_eq!(transform_body(true, b"Hello, world!"), "SGVsbG8sIHdvcmxkIQ==");
    assert_eq!(transform_body(true, &[0xfb, 0xff]), "+/8=");
    assert_eq!(transform_body(true, b""), "");
}

#[test]
fn transform_body_replaces_what_is_not_utf8() {
    assert_eq!(transform_body(false, &[b'a', 0xff, b'b']), "a\u{fffd}b");
    assert_eq!(transform_body(false, "h\u{e9}llo".as_bytes()), "h\u{e9}llo");
}

#[test]
fn classifier_knows_the_text_types() {
    assert!(!content_type_needs_base64("application/json"));
    assert!(!content_type_needs_base64("application/xml"));
    assert!(!content_type_needs_base64("application/javascript"));
    assert!(!content_type_needs_base64("text/"));
    assert!(!content_type_needs_base64("text/plain"));
    assert!(!content_type_needs_base64("text/html; charset=utf-8"));
}

#[test]
fn classifier_encodes_everything_else() {
    assert!(content_type_needs_base64(""));
    assert!(content_type_needs_base64("image/png"));
    assert!(content_type_needs_base64("application/octet-stream"));
    assert!(content_type_needs_base64("application/json; charset=utf-8"));
    assert!(content_type_needs_base64("Application/JSON"));
    assert!(content_type_needs_base64("text"));
    assert!(content_type_needs_base64(" text/plain"));
    assert!(content_type_needs_base64("TEXT/plain"));
}

#[test]
fn classifying_twice_gives_the_same() {
    for content_type in ["application/json", "text/css", "", "image/gif", "application/pdf"] {
        assert_eq!(
            content_type_needs_base64(content_type),
            content_type_needs_base64(content_type)
        );
    }
}

#[test]
fn a_request_without_content_type_is_encoded() {
    assert!(whether_should_base64_encode(&HeaderMap::new()));
}

#[test]
fn a_content_type_that_is_not_visible_ascii_is_encoded() {
    let mut headers = HeaderMap::new();
    headers.insert(
        "content-type",
        http::HeaderValue::from_bytes(b"text/\xe9").unwrap(),
    );
    assert!(whether_should_base64_encode(&headers));
}

#[test]
fn the_first_content_type_decides() {
    let mut headers = HeaderMap::new();
    headers.append("content-type", "image/png".parse().unwrap());
    headers.append("content-type", "text/plain".parse().unwrap());
    assert!(whether_should_base64_encode(&headers));
}

fn reply_with(flag: bool, text: &str) -> Vec<u8> {
    let mut object = serde_json::Map::new();
    object.insert("statusCode".to_string(), serde_json::Value::from(200));
    object.insert("isBase64Encoded".to_string(), serde_json::Value::Bool(flag));
    object.insert("body".to_string(), serde_json::Value::String(text.to_string()));
    serde_json::to_vec(&serde_json::Value::Object(object)).unwrap()
}

#[test]
fn a_text_body_comes_back_as_it_went() {
    let body = "Hello, w\u{f6}rld! {\"a\": [1, 2]}\n".as_bytes().to_vec();
    let text = transform_body(false, &body);
    let response = decode_buffered_response(&reply_with(false, &text)).unwrap();
    assert_eq!(response.body, body);
}

#[test]
fn a_binary_body_comes_back_as_it_went() {
    let body: Vec<u8> = (0..=255u8).collect();
    let text = transform_body(true, &body);
    let response = decode_buffered_response(&reply_with(true, &text)).unwrap();
    assert_eq!(response.body, body);

    let empty: Vec<u8> = Vec::new();
    let text = transform_body(true, &empty);
    let response = decode_buffered_response(&reply_with(true, &text)).unwrap();
    assert_eq!(response.body, empty);
}
