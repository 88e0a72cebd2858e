//! How a request's body travels in the invocation payload: as text, or as
//! base64 where its content type does not promise text.

use vstd::prelude::*;
use vstd::utf8::*;
use crate::buffered::body_of_text;
use crate::encoding::{base64_encode, base64_text, utf8_lossy, utf8_lossy_text};
use crate::headers::{first_header_text, header_map_model, header_text, HeaderEntries, Headers};
use crate::text::{text_eq, text_starts_with};

verus! {

/// Whether a body of content type `content_type` is carried as text:
/// `application/json`, `application/xml`, `application/javascript`, and
/// every type that begins with `text/`.
pub open spec fn is_text_content_type(content_type: Seq<char>) -> bool {
    ||| content_type == "application/json"@
    ||| content_type == "application/xml"@
    ||| content_type == "application/javascript"@
    ||| "text/"@.is_prefix_of(content_type)
}

/// Whether a body of content type `content_type` must be base64-encoded.
pub open spec fn must_base64_encode(content_type: Seq<char>) -> bool {
    !is_text_content_type(content_type)
}

/// The content type that the headers declare: the first value of
/// `content-type` where that is visible ASCII, and the empty text otherwise.
pub open spec fn declared_content_type(headers: HeaderEntries) -> Seq<
    char,
> {
    match header_text(headers, "content-type"@) {
        Some(content_type) => content_type,
        None => Seq::empty(),
    }
}

/// The text that carries `body` in the invocation payload.
pub open spec fn body_text(should_base64_encode: bool, body: Seq<u8>) -> Seq<char> {
    if should_base64_encode {
        base64_text(body)
    } else {
        utf8_lossy_text(body)
    }
}

/// Decides from a content type whether the body must be base64-encoded.
pub fn content_type_needs_base64(content_type: &str) -> (r: bool)
    ensures
        r == must_base64_encode(content_type@),
{
    if text_eq(content_type, "application/json") {
        false
    } else if text_eq(content_type, "application/xml") {
        false
    } else if text_eq(content_type, "application/javascript") {
        false
    } else if text_starts_with(content_type, "text/") {
        false
    } else {
        true
    }
}

/// Decides from a request's headers whether its body must be
/// base64-encoded. A request without a readable `content-type` is treated as
/// one of empty content type, so its body is encoded.
pub fn whether_should_base64_encode(headers: &Headers) -> (r: bool)
    ensures
        r == must_base64_encode(declared_content_type(header_map_model(*headers))),
{
    match first_header_text(headers, "content-type") {
        Some(content_type) => content_type_needs_base64(content_type.as_str()),
        None => {
            proof {
                reveal_strlit("");
                assert(""@ =~= Seq::<char>::empty());
            }
            content_type_needs_base64("")
        },
    }
}

/// Turns the body into the text that carries it: base64 where
/// `should_base64_encode` is set, else its UTF-8 text with replacement of
/// what is ill-formed.
///
/// The text gives the body back: a reply that carries it, with the same
/// flag, is decoded into the very bytes of the body. That holds of every
/// body that goes as base64, and of every body that is UTF-8 and goes as
/// text.
pub fn transform_body(should_base64_encode: bool, body: &[u8]) -> (r: String)
    ensures
        r@ == body_text(should_base64_encode, body@),
        !should_base64_encode && valid_utf8(body@) ==> r@ == decode_utf8(body@),
        should_base64_encode || valid_utf8(body@) ==> body_of_text(should_base64_encode, r@)
            == Some(body@),
{
    if should_base64_encode {
        base64_encode(body)
    } else {
        proof {
            if valid_utf8(body@) {
                decode_utf8_encode_utf8(body@);
            }
        }
        utf8_lossy(body)
    }
}

/// The content types that promise text are classified as text, among them
/// every one that begins with `text/`; the empty content type is not.
pub proof fn lemma_text_content_types()
    ensures
        !must_base64_encode("application/json"@),
        !must_base64_encode("application/xml"@),
        !must_base64_encode("application/javascript"@),
        forall|content_type: Seq<char>|
            "text/"@.is_prefix_of(content_type) ==> !must_base64_encode(content_type),
        forall|content_type: Seq<char>|
            content_type != "application/json"@ && content_type != "application/xml"@
                && content_type != "application/javascript"@ && !"text/"@.is_prefix_of(content_type)
                ==> must_base64_encode(content_type),
        must_base64_encode(Seq::empty()),
{
    reveal_strlit("application/json");
    reveal_strlit("application/xml");
    reveal_strlit("application/javascript");
    reveal_strlit("text/");
    let none = Seq::<char>::empty();
    assert(none.len() != "application/json"@.len());
    assert(none.len() != "application/xml"@.len());
    assert(none.len() != "application/javascript"@.len());
    assert(none.len() < "text/"@.len());
}

/// Classifying goes by the content type alone: what is classified once is
/// classified the same way again.
pub proof fn lemma_classification_is_stable(first: Seq<char>, second: Seq<char>)
    requires
        first == second,
    ensures
        must_base64_encode(first) == must_base64_encode(second),
{
}

} // verus!
