//! Conversions between bytes and text: base64 in the standard alphabet, and
//! UTF-8 with replacement.

use vstd::prelude::*;
use vstd::utf8::*;

verus! {

/// The base64 text, standard alphabet with padding, that stands for `bytes`.
pub uninterp spec fn base64_text(bytes: Seq<u8>) -> Seq<char>;

/// The bytes that the base64 text `text` stands for, `None` where it is not
/// base64 in the standard alphabet with padding.
pub uninterp spec fn base64_bytes(text: Seq<char>) -> Option<Seq<u8>>;

/// The text that `bytes` hold as UTF-8, each ill-formed stretch replaced by
/// U+FFFD.
pub uninterp spec fn utf8_lossy_text(bytes: Seq<u8>) -> Seq<char>;

/// `Engine::encode` on `BASE64_STANDARD`: the base64 text of the bytes.
/// Decoding that text gives the bytes back.
#[verifier::external_body]
pub(crate) fn base64_encode(bytes: &[u8]) -> (r: String)
    ensures
        r@ == base64_text(bytes@),
        base64_bytes(r@) == Some(bytes@),
{
    base64::Engine::encode(&base64::prelude::BASE64_STANDARD, bytes)
}

/// `Engine::decode` on `BASE64_STANDARD`: the bytes that the text stands
/// for, `None` where the text is refused.
#[verifier::external_body]
pub(crate) fn base64_decode(text: &str) -> (r: Option<Vec<u8>>)
    ensures
        match r {
            Some(bytes) => base64_bytes(text@) == Some(bytes@),
            None => base64_bytes(text@) is None,
        },
{
    base64::Engine::decode(&base64::prelude::BASE64_STANDARD, text).ok()
}

/// `String::from_utf8_lossy`: the text of the bytes, with U+FFFD in place of
/// what is not UTF-8. Bytes that are UTF-8 give exactly the text they encode.
#[verifier::external_body]
pub(crate) fn utf8_lossy(bytes: &[u8]) -> (r: String)
    ensures
        r@ == utf8_lossy_text(bytes@),
        valid_utf8(bytes@) ==> r@ == decode_utf8(bytes@),
{
    String::from_utf8_lossy(bytes).to_string()
}

} // verus!
