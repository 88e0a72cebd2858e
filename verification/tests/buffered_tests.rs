use aws_lambda_events::alb::AlbTargetGroupResponse;
use http::HeaderMap;
use lambda_web_gateway::buffered::{decode_buffered_response, handle_buffered_response};
use lambda_web_gateway::response::{
    empty_response, failure_response, GatewayError, GatewayResponse, ResponseHead,
};

fn pair(name: &str, value: &str) -> (String, String) {
    (name.to_string(), value.to_string())
}

fn values_of<'a>(head: &'a ResponseHead, name: &str) -> Vec<&'a str> {
    head.headers
        .iter()
        .filter(|(n, _)| n == name)
        .map(|(_, v)| v.as_str())
        .collect()
}

#[test]
fn test_handle_buffered_response() {
    let mut lambda_response = AlbTargetGroupResponse::default();
    lambda_response.status_code = 200;
    lambda_response.status_description = None;
    lambda_response.is_base64_encoded = false;
    lambda_response.headers = {
        let mut headers = HeaderMap::new();
        headers.insert("Content-Type", "text/plain".parse().unwrap());
        headers
    };
    lambda_response.body = Some("Hello, world!".into());
    let payload = serde_json::to_vec(&lambda_response).unwrap();

    let response = handle_buffered_response(&payload);

    assert_eq!(response.head.status, 200);
    assert_eq!(values_of(&response.head, "content-type"), ["text/plain"]);
    assert_eq!(response.body, b"Hello, world!");
}

#[test]
fn test_handle_buffered_response_base64() {
    let mut lambda_response = AlbTargetGroupResponse::default();
    lambda_response.status_code = 200;
    lambda_response.status_description = None;
    lambda_response.is_base64_encoded = true;
    lambda_response.headers = {
        let mut headers = HeaderMap::new();
        headers.insert("Content-Type", "text/plain".parse().unwrap());
        headers
    };
    lambda_response.body = Some("SGVsbG8sIHdvcmxkIQ==".into());
    let payload = serde_json::to_vec(&lambda_response).unwrap();

    let response = handle_buffered_response(&payload);

    assert_eq!(response.head.status, 200);
    assert_eq!(values_of(&response.head, "content-type"), ["text/plain"]);
    assert_eq!(response.body, b"Hello, world!");
}

#[test]
fn base64_reply_is_decoded() {
    let response = decode_buffered_response(
        b"{\"statusCode\":200,\"isBase64Encoded\":true,\"body\":\"SGVsbG8sIHdvcmxkIQ==\"}",
    )
    .unwrap();
    assert_eq!(
        response,
        GatewayResponse {
            head: ResponseHead {
                status: 200,
                headers: vec![],
            },
            body: b"Hello, world!".to_vec(),
        }
    );
}

#[test]
fn reply_with_everything() {
    let response = decode_buffered_response(
        b"{\"statusCode\":404,\"statusDescription\":\"404 Not Found\",\"isBase64Encoded\":false,\"headers\":{\"X-B\":\"2\",\"Content-Type\":\"text/html\",\"content-length\":\"9\"},\"body\":\"not found\"}",
    )
    .unwrap();
    assert_eq!(
        response,
        GatewayResponse {
            head: ResponseHead {
                status: 404,
                headers: vec![
                    pair("content-type", "text/html"),
                    pair("x-b", "2"),
                    pair("content-length", "9"),
                ],
            },
            body: b"not found".to_vec(),
        }
    );
}

#[test]
fn what_is_missing_has_its_default() {
    let bare = GatewayResponse {
        head: ResponseHead {
            status: 204,
            headers: vec![],
        },
        body: vec![],
    };
    assert_eq!(decode_buffered_response(b"{\"statusCode\":204}").unwrap(), bare);
    assert_eq!(
        decode_buffered_response(b"{\"statusCode\":204,\"isBase64Encoded\":null,\"body\":null}")
            .unwrap(),
        bare
    );
    // without the flag the body is text, though it could be read as base64
    assert_eq!(
        decode_buffered_response(b"{\"statusCode\":200,\"body\":\"SGVsbG8=\"}")
            .unwrap()
            .body,
        b"SGVsbG8="
    );
}

#[test]
fn a_text_body_is_the_bytes_of_its_text() {
    assert_eq!(
        decode_buffered_response("{\"statusCode\":200,\"body\":\"h\u{e9}llo \\u00e9\"}".as_bytes())
            .unwrap()
            .body,
        "h\u{e9}llo \u{e9}".as_bytes()
    );
}

#[test]
fn a_malformed_reply_is_a_decode_error() {
    let malformed: [&[u8]; 16] = [
        b"",
        b"not json",
        b"{\"statusCode\":200",
        b"[]",
        b"{}",
        b"{\"body\":\"x\"}",
        b"{\"statusCode\":99}",
        b"{\"statusCode\":600}",
        b"{\"statusCode\":-200}",
        b"{\"statusCode\":\"200\"}",
        b"{\"statusCode\":200.5}",
        b"{\"statusCode\":200,\"isBase64Encoded\":true,\"body\":\"not base64!\"}",
        b"{\"statusCode\":200,\"isBase64Encoded\":\"yes\",\"body\":\"\"}",
        b"{\"statusCode\":200,\"body\":7}",
        b"{\"statusCode\":200,\"headers\":{\"bad name\":\"x\"}}",
        b"{\"statusCode\":200,\"headers\":{\"x-a\":\"line\\nbreak\"}}",
    ];
    for payload in malformed {
        assert_eq!(decode_buffered_response(payload), Err(GatewayError::DecodeError));
        assert_eq!(handle_buffered_response(payload), empty_response(500));
    }
    assert_eq!(
        decode_buffered_response(b"{\"statusCode\":200,\"headers\":null}"),
        Err(GatewayError::DecodeError)
    );
    assert_eq!(
        decode_buffered_response(b"{\"statusCode\":200,\"headers\":{\"x-a\":[\"1\"]}}"),
        Err(GatewayError::DecodeError)
    );
}

#[test]
fn reply_statuses_reach_from_100_to_599() {
    assert_eq!(
        decode_buffered_response(b"{\"statusCode\":100}").unwrap().head.status,
        100
    );
    assert_eq!(
        decode_buffered_response(b"{\"statusCode\":599}").unwrap().head.status,
        599
    );
}

#[test]
fn every_failure_has_its_status() {
    assert_eq!(GatewayError::AuthorizationDenied.status(), 401);
    assert_eq!(GatewayError::TranslationError.status(), 500);
    assert_eq!(GatewayError::InvocationError.status(), 500);
    assert_eq!(GatewayError::DecodeError.status(), 500);
    assert_eq!(GatewayError::StreamReadError.status(), 500);
    for error in [
        GatewayError::AuthorizationDenied,
        GatewayError::TranslationError,
        GatewayError::InvocationError,
        GatewayError::DecodeError,
        GatewayError::StreamReadError,
    ] {
        let response = failure_response(error);
        assert_eq!(response.head.status, error.status());
        assert!(response.head.headers.is_empty());
        assert!(response.body.is_empty());
    }
}
