//! The prelude of a streamed reply, and the head of the response that is
//! made of it.
//!
//! A prelude is a JSON object that gives the status, the headers and the
//! cookies of the response. The head takes the status and the headers as
//! they stand, except that `content-length` is left out, for the length of a
//! streamed body is not known; each cookie becomes a `set-cookie` header.

use vstd::prelude::*;
use vstd::utf8::*;
use crate::encoding::{utf8_lossy, utf8_lossy_text};
use crate::framing::{
    after_delimiter, before_delimiter, copy_range, has_delimiter, lemma_first_delimiter_end,
    scan_delimiter, DELIMITER_LEN,
};
use crate::headers::{canonical_header_name, canonical_name, is_header_value, valid_header_value};
use crate::json::{json_get, json_member_or_null, json_model, json_parse, parse_json, JsonModel};
use crate::response::{
    are_headers, is_legal_status, pairs_model, texts_model, GatewayError, HeadModel, ResponseHead,
    STATUS_OK,
};
use crate::schema::{
    headers_of_json, lemma_headers_of_json_are_headers, read_headers, read_status, read_texts,
    status_of_json, texts_of_json,
};
use crate::text::text_eq;

verus! {

/// What a metadata prelude holds.
pub struct PreludeModel {
    pub status: int,
    pub headers: Seq<(Seq<char>, Seq<char>)>,
    pub cookies: Seq<Seq<char>>,
}

/// The prelude that stands in for one that cannot be read: status 200, no
/// headers, no cookies.
pub open spec fn default_prelude() -> PreludeModel {
    PreludeModel { status: 200, headers: Seq::empty(), cookies: Seq::empty() }
}

/// The prelude that the JSON document `doc` gives: an object with a legal
/// `statusCode`, a map `headers` of header names to values, and a list
/// `cookies` of texts. `None` where any of the three is missing or amiss.
pub open spec fn prelude_of_json(doc: JsonModel) -> Option<PreludeModel> {
    match (
        status_of_json(json_member_or_null(doc, "statusCode"@)),
        headers_of_json(json_member_or_null(doc, "headers"@)),
        texts_of_json(json_member_or_null(doc, "cookies"@)),
    ) {
        (Some(status), Some(headers), Some(cookies)) => Some(
            PreludeModel { status, headers, cookies },
        ),
        _ => None,
    }
}

/// The prelude that the bytes before a delimiter give. The bytes are read as
/// UTF-8 with replacement and then as JSON; where that does not give a
/// prelude, the default one stands in.
pub open spec fn prelude_of_bytes(bytes: Seq<u8>) -> PreludeModel {
    match json_parse(encode_utf8(utf8_lossy_text(bytes))) {
        Some(doc) => match prelude_of_json(doc) {
            Some(prelude) => prelude,
            None => default_prelude(),
        },
        None => default_prelude(),
    }
}

/// The status, headers and cookies that a streamed reply declares for its
/// response.
#[derive(Debug, Clone, PartialEq, Eq)]
pub struct MetadataPrelude {
    /// The HTTP status code.
    pub status_code: u16,
    /// The HTTP headers.
    pub headers: Vec<(String, String)>,
    /// The HTTP cookies.
    pub cookies: Vec<String>,
}

impl View for MetadataPrelude {
    type V = PreludeModel;

    open spec fn view(&self) -> PreludeModel {
        PreludeModel {
            status: self.status_code as int,
            headers: pairs_model(self.headers@),
            cookies: texts_model(self.cookies@),
        }
    }
}

impl Default for MetadataPrelude {
    fn default() -> (r: Self)
        ensures
            r@ == default_prelude(),
    {
        let r = MetadataPrelude { status_code: STATUS_OK, headers: Vec::new(), cookies: Vec::new() };
        assert(r@.headers =~= Seq::empty());
        assert(r@.cookies =~= Seq::empty());
        r
    }
}

/// Reads a prelude out of a JSON document.
fn read_prelude(doc: &serde_json::Value) -> (r: Option<MetadataPrelude>)
    ensures
        match r {
            Some(prelude) => prelude_of_json(json_model(*doc)) == Some(prelude@),
            None => prelude_of_json(json_model(*doc)) is None,
        },
{
    let status_code = match json_get(doc, "statusCode") {
        Some(v) => match read_status(v) {
            Some(code) => code,
            None => {
                return None;
            },
        },
        None => {
            return None;
        },
    };
    let headers = match json_get(doc, "headers") {
        Some(v) => match read_headers(v) {
            Some(headers) => headers,
            None => {
                return None;
            },
        },
        None => {
            return None;
        },
    };
    let cookies = match json_get(doc, "cookies") {
        Some(v) => match read_texts(v) {
            Some(cookies) => cookies,
            None => {
                return None;
            },
        },
        None => {
            return None;
        },
    };
    Some(MetadataPrelude { status_code, headers, cookies })
}

/// Reads the prelude that stands in the bytes before a delimiter.
pub fn parse_prelude(bytes: &[u8]) -> (r: MetadataPrelude)
    ensures
        r@ == prelude_of_bytes(bytes@),
{
    let text = utf8_lossy(bytes);
    match parse_json(text.as_str().as_bytes()) {
        Some(doc) => match read_prelude(&doc) {
            Some(prelude) => prelude,
            None => MetadataPrelude::default(),
        },
        None => MetadataPrelude::default(),
    }
}

/// Looks for a prelude at the start of `buffer`. Where the buffer holds a
/// delimiter, gives the prelude read from the bytes before the first one,
/// and the bytes after it.
pub fn try_parse_metadata(buffer: &[u8]) -> (r: Option<(MetadataPrelude, Vec<u8>)>)
    ensures
        match r {
            Some((prelude, remaining)) => has_delimiter(buffer@) && prelude@ == prelude_of_bytes(
                before_delimiter(buffer@),
            ) && remaining@ == after_delimiter(buffer@),
            None => !has_delimiter(buffer@),
        },
{
    match scan_delimiter(buffer, 0, 0).0 {
        Some(i) => {
            proof {
                lemma_first_delimiter_end(buffer@, i as int);
            }
            let n = buffer.len();
            let head = copy_range(buffer, 0, i - (DELIMITER_LEN - 1));
            let remaining = copy_range(buffer, i + 1, n);
            let prelude = parse_prelude(head.as_slice());
            Some((prelude, remaining))
        },
        None => None,
    }
}

/// Whether a header is the one that declares the length of the body.
pub open spec fn is_content_length(header: (Seq<char>, Seq<char>)) -> bool {
    header.0 == "content-length"@
}

/// The headers but the ones that declare the length of the body.
pub open spec fn without_content_length(headers: Seq<(Seq<char>, Seq<char>)>) -> Seq<
    (Seq<char>, Seq<char>),
> {
    headers.filter(|h: (Seq<char>, Seq<char>)| !is_content_length(h))
}

/// One `set-cookie` header for each cookie, in their order.
pub open spec fn cookie_headers(cookies: Seq<Seq<char>>) -> Seq<(Seq<char>, Seq<char>)> {
    Seq::new(cookies.len(), |i: int| ("set-cookie"@, cookies[i]))
}

/// Whether every text is accepted as a header value.
pub open spec fn are_header_values(texts: Seq<Seq<char>>) -> bool {
    forall|i: int| 0 <= i < texts.len() ==> is_header_value(#[trigger] texts[i])
}

/// The head of a response to a stream without prelude: status 200 and
/// `content-type: application/octet-stream`.
pub open spec fn default_head() -> HeadModel {
    HeadModel { status: 200, headers: seq![("content-type"@, "application/octet-stream"@)] }
}

/// The head that a prelude declares: its status, its headers but
/// `content-length`, and a `set-cookie` header for each of its cookies.
/// `None` where the prelude's status is not legal, one of its headers is not
/// a header, or one of its cookies is not accepted as a header value.
pub open spec fn head_of_prelude(prelude: PreludeModel) -> Option<HeadModel> {
    if is_legal_status(prelude.status) && are_headers(prelude.headers) && are_header_values(
        prelude.cookies,
    ) {
        Some(
            HeadModel {
                status: prelude.status,
                headers: without_content_length(prelude.headers) + cookie_headers(prelude.cookies),
            },
        )
    } else {
        None
    }
}

/// The head of the response to a stream, given the prelude that it began
/// with, if any.
pub open spec fn head_for(prelude: Option<PreludeModel>) -> Option<HeadModel> {
    match prelude {
        Some(p) => head_of_prelude(p),
        None => Some(default_head()),
    }
}

/// What an optional prelude holds.
pub open spec fn prelude_model(metadata: Option<MetadataPrelude>) -> Option<PreludeModel> {
    match metadata {
        Some(p) => Some(p@),
        None => None,
    }
}

/// Whether the pairs are headers in the form a header map keeps them.
fn check_headers(pairs: &Vec<(String, String)>) -> (r: bool)
    ensures
        r == are_headers(pairs_model(pairs@)),
{
    let mut i: usize = 0;
    while i < pairs.len()
        invariant
            i <= pairs.len(),
            forall|j: int|
                0 <= j < i ==> canonical_header_name((#[trigger] pairs_model(pairs@)[j]).0) == Some(
                    pairs_model(pairs@)[j].0,
                ) && is_header_value(pairs_model(pairs@)[j].1),
        decreases pairs.len() - i,
    {
        let canonical = match canonical_name(pairs[i].0.as_str()) {
            Some(name) => text_eq(name.as_str(), pairs[i].0.as_str()),
            None => false,
        };
        if !canonical || !valid_header_value(pairs[i].1.as_str()) {
            assert(!is_header_value(pairs_model(pairs@)[i as int].1) || canonical_header_name(
                pairs_model(pairs@)[i as int].0,
            ) != Some(pairs_model(pairs@)[i as int].0));
            return false;
        }
        i += 1;
    }
    true
}

/// Whether every text is accepted as a header value.
fn check_header_values(texts: &Vec<String>) -> (r: bool)
    ensures
        r == are_header_values(texts_model(texts@)),
{
    let mut i: usize = 0;
    while i < texts.len()
        invariant
            i <= texts.len(),
            forall|j: int| 0 <= j < i ==> is_header_value(#[trigger] texts_model(texts@)[j]),
        decreases texts.len() - i,
    {
        if !valid_header_value(texts[i].as_str()) {
            assert(!is_header_value(texts_model(texts@)[i as int]));
            return false;
        }
        i += 1;
    }
    true
}

/// Makes the head of the response to a stream. With a prelude: its status,
/// its headers but `content-length`, and a `set-cookie` header for each
/// cookie. Without one: status 200 and `content-type:
/// application/octet-stream`. A prelude of which no head can be made is a
/// malformed reply.
pub fn create_response_builder(metadata: Option<MetadataPrelude>) -> (r: Result<
    ResponseHead,
    GatewayError,
>)
    ensures
        match r {
            Ok(head) => head_for(prelude_model(metadata)) == Some(head@),
            Err(e) => e == GatewayError::DecodeError && head_for(prelude_model(metadata)) is None,
        },
{
    match metadata {
        Some(prelude) => {
            if prelude.status_code < 100 || prelude.status_code > 599 || !check_headers(
                &prelude.headers,
            ) || !check_header_values(&prelude.cookies) {
                return Err(GatewayError::DecodeError);
            }
            let ghost given = pairs_model(prelude.headers@);
            let ghost keep = |h: (Seq<char>, Seq<char>)| !is_content_length(h);
            let mut headers: Vec<(String, String)> = Vec::new();
            let mut i: usize = 0;
            proof {
                reveal(Seq::filter);
            }
            while i < prelude.headers.len()
                invariant
                    i <= prelude.headers.len(),
                    given == pairs_model(prelude.headers@),
                    keep == |h: (Seq<char>, Seq<char>)| !is_content_length(h),
                    pairs_model(headers@) == given.take(i as int).filter(keep),
                decreases prelude.headers.len() - i,
            {
                proof {
                    reveal(Seq::filter);
                    assert(given.take(i + 1).drop_last() =~= given.take(i as int));
                }
                if !text_eq(prelude.headers[i].0.as_str(), "content-length") {
                    headers.push((prelude.headers[i].0.clone(), prelude.headers[i].1.clone()));
                }
                i += 1;
            }
            let ghost kept = pairs_model(headers@);
            let ghost cookies = texts_model(prelude.cookies@);
            proof {
                assert(given.take(i as int) =~= given);
            }
            let mut k: usize = 0;
            while k < prelude.cookies.len()
                invariant
                    k <= prelude.cookies.len(),
                    cookies == texts_model(prelude.cookies@),
                    pairs_model(headers@) == kept + cookie_headers(cookies.take(k as int)),
                decreases prelude.cookies.len() - k,
            {
                let ghost before = pairs_model(headers@);
                let name = "set-cookie".to_owned();
                headers.push((name, prelude.cookies[k].clone()));
                proof {
                    assert(pairs_model(headers@) =~= before.push(("set-cookie"@, cookies[k as int])));
                    assert(cookie_headers(cookies.take(k + 1)) =~= cookie_headers(
                        cookies.take(k as int),
                    ).push(("set-cookie"@, cookies[k as int])));
                }
                k += 1;
            }
            proof {
                assert(cookies.take(k as int) =~= cookies);
            }
            Ok(ResponseHead { status: prelude.status_code, headers })
        },
        None => {
            let mut headers: Vec<(String, String)> = Vec::new();
            headers.push(("content-type".to_owned(), "application/octet-stream".to_owned()));
            let head = ResponseHead { status: STATUS_OK, headers };
            assert(head@.headers =~= default_head().headers);
            Ok(head)
        },
    }
}

/// The names that the gateway itself gives to headers are header names in
/// canonical form, and the content type of a stream without prelude is
/// accepted as a header value.
pub proof fn lemma_own_headers()
    ensures
        canonical_header_name("set-cookie"@) == Some("set-cookie"@),
        canonical_header_name("content-type"@) == Some("content-type"@),
        is_header_value("application/octet-stream"@),
        "set-cookie"@ != "content-length"@,
        "content-type"@ != "content-length"@,
{
    reveal_strlit("set-cookie");
    reveal_strlit("content-type");
    reveal_strlit("content-length");
    reveal_strlit("application/octet-stream");
}

/// A head that goes out can be sent: its status is legal, each of its
/// headers is a header, and none of them declares the length of the body.
pub proof fn lemma_head_can_be_sent(prelude: Option<PreludeModel>)
    requires
        head_for(prelude) is Some,
    ensures
        head_for(prelude)->Some_0.is_well_formed(),
        forall|i: int|
            0 <= i < head_for(prelude)->Some_0.headers.len() ==> !is_content_length(
                #[trigger] head_for(prelude)->Some_0.headers[i],
            ),
{
    lemma_own_headers();
    let head = head_for(prelude)->Some_0;
    match prelude {
        Some(p) => {
            let keep = |h: (Seq<char>, Seq<char>)| !is_content_length(h);
            let kept = p.headers.filter(keep);
            let cookies = cookie_headers(p.cookies);
            assert forall|i: int| 0 <= i < head.headers.len() implies canonical_header_name(
                (#[trigger] head.headers[i]).0,
            ) == Some(head.headers[i].0) && is_header_value(head.headers[i].1) && !is_content_length(
                head.headers[i],
            ) by {
                if i < kept.len() {
                    p.headers.lemma_filter_pred(keep, i);
                    p.headers.lemma_filter_contains_rev(keep, kept[i]);
                }
            }
        },
        None => {},
    }
}

/// A prelude that was read has a legal status and headers that are
/// headers, so a head can be made of it unless one of its cookies is not
/// accepted as a header value.
pub proof fn lemma_prelude_read_gives_head(bytes: Seq<u8>)
    ensures
        is_legal_status(prelude_of_bytes(bytes).status),
        are_headers(prelude_of_bytes(bytes).headers),
        head_of_prelude(prelude_of_bytes(bytes)) is Some <==> are_header_values(
            prelude_of_bytes(bytes).cookies,
        ),
{
    match json_parse(encode_utf8(utf8_lossy_text(bytes))) {
        Some(doc) => {
            if prelude_of_json(doc) is Some {
                lemma_headers_of_json_are_headers(json_member_or_null(doc, "headers"@));
            }
        },
        None => {},
    }
}

} // verus!
