//! The reply of a buffered invocation: one JSON document that gives the
//! status, the headers and the body of the response.

use vstd::prelude::*;
use vstd::utf8::*;
use crate::encoding::{base64_bytes, base64_decode};
use crate::json::{
    json_as_bool, json_as_str, json_get, json_has_member, json_is_null, json_member,
    json_member_or_null, json_model, json_parse, parse_json, JsonModel,
};
use crate::response::{
    bare_response, failure_response, GatewayError, GatewayResponse, HeadModel, ResponseHead,
    ResponseModel,
};
use crate::schema::{
    headers_of_json, lemma_headers_of_json_are_headers, read_headers, read_status, status_of_json,
};

verus! {

/// The flag that the JSON value `v` gives: `false` where it is absent or
/// null.
pub open spec fn flag_of_json(v: JsonModel) -> Option<bool> {
    match v {
        JsonModel::Null => Some(false),
        JsonModel::Bool(b) => Some(b),
        _ => None,
    }
}

/// The text that the JSON value `v` gives: empty where it is absent or null.
pub open spec fn text_of_json(v: JsonModel) -> Option<Seq<char>> {
    match v {
        JsonModel::Null => Some(Seq::empty()),
        JsonModel::Text(t) => Some(t),
        _ => None,
    }
}

/// The headers that the member `headers` of a reply gives: none where the
/// member is absent.
pub open spec fn reply_headers_of_json(doc: JsonModel) -> Option<Seq<(Seq<char>, Seq<char>)>> {
    if json_has_member(doc, "headers"@) {
        headers_of_json(json_member(doc, "headers"@))
    } else {
        Some(Seq::empty())
    }
}

/// The body that a reply's text stands for: the bytes that it encodes as
/// base64 where the flag is set, else the bytes of the text itself.
pub open spec fn body_of_text(is_base64_encoded: bool, text: Seq<char>) -> Option<Seq<u8>> {
    if is_base64_encoded {
        base64_bytes(text)
    } else {
        Some(encode_utf8(text))
    }
}

/// The response that the JSON document `doc` gives: an object with a legal
/// `statusCode`; `headers`, if present, a map of header names to values;
/// `isBase64Encoded`, if present, a flag or null; `body`, if present, a text
/// or null, and base64 where the flag says so. `None` where any of these is
/// amiss.
pub open spec fn reply_of_json(doc: JsonModel) -> Option<ResponseModel> {
    match (
        status_of_json(json_member_or_null(doc, "statusCode"@)),
        reply_headers_of_json(doc),
        flag_of_json(json_member_or_null(doc, "isBase64Encoded"@)),
        text_of_json(json_member_or_null(doc, "body"@)),
    ) {
        (Some(status), Some(headers), Some(flag), Some(text)) => match body_of_text(flag, text) {
            Some(body) => Some(ResponseModel { head: HeadModel { status, headers }, body }),
            None => None,
        },
        _ => None,
    }
}

/// The response that the payload of a buffered reply gives, `None` where the
/// payload is malformed.
pub open spec fn decode_reply(payload: Seq<u8>) -> Option<ResponseModel> {
    match json_parse(payload) {
        Some(doc) => reply_of_json(doc),
        None => None,
    }
}

/// Reads a flag that may be absent or null.
fn read_flag(doc: &serde_json::Value, key: &str) -> (r: Option<bool>)
    ensures
        r == flag_of_json(json_member_or_null(json_model(*doc), key@)),
{
    match json_get(doc, key) {
        Some(v) => {
            if json_is_null(v) {
                Some(false)
            } else {
                json_as_bool(v)
            }
        },
        None => Some(false),
    }
}

/// Reads a text that may be absent or null.
fn read_text(doc: &serde_json::Value, key: &str) -> (r: Option<String>)
    ensures
        r.deep_view() == text_of_json(json_member_or_null(json_model(*doc), key@)),
{
    match json_get(doc, key) {
        Some(v) => {
            if json_is_null(v) {
                Some(String::new())
            } else {
                match json_as_str(v) {
                    Some(s) => Some(s.to_owned()),
                    None => None,
                }
            }
        },
        None => Some(String::new()),
    }
}

/// Decodes the payload of a buffered reply into a response: the status from
/// `statusCode`, every header as it stands, and the body, taken out of
/// base64 where `isBase64Encoded` is set. A payload that is not JSON, a
/// status that is not legal, a header that is none and a body that is not
/// base64 where it should be are malformed replies.
pub fn decode_buffered_response(payload: &[u8]) -> (r: Result<GatewayResponse, GatewayError>)
    ensures
        match r {
            Ok(response) => decode_reply(payload@) == Some(response@),
            Err(e) => e == GatewayError::DecodeError && decode_reply(payload@) is None,
        },
{
    let doc = match parse_json(payload) {
        Some(doc) => doc,
        None => {
            return Err(GatewayError::DecodeError);
        },
    };
    let status = match json_get(&doc, "statusCode") {
        Some(v) => match read_status(v) {
            Some(status) => status,
            None => {
                return Err(GatewayError::DecodeError);
            },
        },
        None => {
            return Err(GatewayError::DecodeError);
        },
    };
    let headers = match json_get(&doc, "headers") {
        Some(v) => match read_headers(v) {
            Some(headers) => headers,
            None => {
                return Err(GatewayError::DecodeError);
            },
        },
        None => Vec::new(),
    };
    let is_base64_encoded = match read_flag(&doc, "isBase64Encoded") {
        Some(flag) => flag,
        None => {
            return Err(GatewayError::DecodeError);
        },
    };
    let text = match read_text(&doc, "body") {
        Some(text) => text,
        None => {
            return Err(GatewayError::DecodeError);
        },
    };
    let body = if is_base64_encoded {
        match base64_decode(text.as_str()) {
            Some(body) => body,
            None => {
                return Err(GatewayError::DecodeError);
            },
        }
    } else {
        text.as_str().as_bytes_vec()
    };
    let response = GatewayResponse { head: ResponseHead { status, headers }, body };
    proof {
        assert(response.head@.headers =~= reply_headers_of_json(json_model(doc))->Some_0);
    }
    Ok(response)
}

/// Turns the payload of a buffered reply into the response for the client:
/// the response that the payload gives, or status 500 without headers or
/// body where the payload is malformed.
pub fn handle_buffered_response(payload: &[u8]) -> (r: GatewayResponse)
    ensures
        r@ == (match decode_reply(payload@) {
            Some(response) => response,
            None => bare_response(500),
        }),
{
    match decode_buffered_response(payload) {
        Ok(response) => response,
        Err(e) => failure_response(e),
    }
}

/// A reply is decoded into the body that its text stands for: where a
/// reply that can be decoded gives the flag `flag` and the body `text`, its
/// response has the bytes that `text` stands for under `flag`.
pub proof fn lemma_reply_gives_body(doc: JsonModel, flag: bool, text: Seq<char>)
    requires
        reply_of_json(doc) is Some,
        json_member_or_null(doc, "isBase64Encoded"@) == JsonModel::Bool(flag),
        json_member_or_null(doc, "body"@) == JsonModel::Text(text),
    ensures
        body_of_text(flag, text) == Some(reply_of_json(doc)->Some_0.body),
{
}

/// A reply without the flag is read as text: its body is the bytes of the
/// text itself.
pub proof fn lemma_reply_without_flag(doc: JsonModel, text: Seq<char>)
    requires
        reply_of_json(doc) is Some,
        !json_has_member(doc, "isBase64Encoded"@),
        json_member_or_null(doc, "body"@) == JsonModel::Text(text),
    ensures
        reply_of_json(doc)->Some_0.body == encode_utf8(text),
{
}

/// A reply without headers has a response without headers.
pub proof fn lemma_reply_without_headers(doc: JsonModel)
    requires
        reply_of_json(doc) is Some,
        !json_has_member(doc, "headers"@),
    ensures
        reply_of_json(doc)->Some_0.head.headers == Seq::<(Seq<char>, Seq<char>)>::empty(),
{
}

/// The response of a reply can be sent: its status is legal and each of
/// its headers is a header.
pub proof fn lemma_reply_can_be_sent(doc: JsonModel)
    requires
        reply_of_json(doc) is Some,
    ensures
        reply_of_json(doc)->Some_0.head.is_well_formed(),
{
    if json_has_member(doc, "headers"@) {
        lemma_headers_of_json_are_headers(json_member(doc, "headers"@));
    }
}

} // verus!
