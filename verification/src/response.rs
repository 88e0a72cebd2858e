//! The HTTP response that the gateway hands back: a head of status and
//! headers, and for a buffered reply the whole body.

use vstd::prelude::*;
use crate::headers::{canonical_header_name, is_header_value};

verus! {

/// Status of a response that carries a reply.
pub const STATUS_OK: u16 = 200;

/// Status of the answer to a request that was not authorized.
pub const STATUS_UNAUTHORIZED: u16 = 401;

/// Status of the answer to a request that the gateway could not serve.
pub const STATUS_INTERNAL_SERVER_ERROR: u16 = 500;

/// Whether `code` is a legal HTTP status.
pub open spec fn is_legal_status(code: int) -> bool {
    100 <= code <= 599
}

/// Why the gateway could not serve a request.
#[derive(Debug, Clone, Copy, PartialEq, Eq, Structural)]
pub enum GatewayError {
    /// The request carries no credential that the gateway accepts.
    AuthorizationDenied,
    /// The invocation payload could not be made of the request.
    TranslationError,
    /// The call of the backend failed.
    InvocationError,
    /// The backend's reply is malformed.
    DecodeError,
    /// The backend's stream broke off.
    StreamReadError,
}

impl GatewayError {
    /// The status with which a failure of this kind is answered.
    pub open spec fn spec_status(self) -> int {
        if self is AuthorizationDenied {
            401
        } else {
            500
        }
    }

    /// The status with which a failure of this kind is answered: 401 where
    /// authorization was denied, 500 for every other.
    pub fn status(&self) -> (r: u16)
        ensures
            r == self.spec_status(),
    {
        match self {
            GatewayError::AuthorizationDenied => STATUS_UNAUTHORIZED,
            _ => STATUS_INTERNAL_SERVER_ERROR,
        }
    }
}

/// What a list of name and value pairs holds.
pub open spec fn pairs_model(pairs: Seq<(String, String)>) -> Seq<(Seq<char>, Seq<char>)> {
    Seq::new(pairs.len(), |i: int| (pairs[i].0@, pairs[i].1@))
}

/// What a list of texts holds.
pub open spec fn texts_model(texts: Seq<String>) -> Seq<Seq<char>> {
    Seq::new(texts.len(), |i: int| texts[i]@)
}

/// Whether every pair is a header in the form a header map keeps it: a
/// canonical name and an accepted value.
pub open spec fn are_headers(pairs: Seq<(Seq<char>, Seq<char>)>) -> bool {
    forall|i: int|
        0 <= i < pairs.len() ==> canonical_header_name((#[trigger] pairs[i]).0) == Some(pairs[i].0)
            && is_header_value(pairs[i].1)
}

/// What a response head holds.
pub struct HeadModel {
    pub status: int,
    pub headers: Seq<(Seq<char>, Seq<char>)>,
}

impl HeadModel {
    /// Whether an HTTP response can be made of this head.
    pub open spec fn is_well_formed(self) -> bool {
        is_legal_status(self.status) && are_headers(self.headers)
    }
}

/// Status and headers of a response. The headers are in the order in which
/// they go out; a name may occur more than once.
#[derive(Debug, Clone, PartialEq, Eq)]
pub struct ResponseHead {
    pub status: u16,
    pub headers: Vec<(String, String)>,
}

impl View for ResponseHead {
    type V = HeadModel;

    open spec fn view(&self) -> HeadModel {
        HeadModel { status: self.status as int, headers: pairs_model(self.headers@) }
    }
}

/// A whole response: its head and its body.
#[derive(Debug, Clone, PartialEq, Eq)]
pub struct GatewayResponse {
    pub head: ResponseHead,
    pub body: Vec<u8>,
}

/// What a whole response holds.
pub struct ResponseModel {
    pub head: HeadModel,
    pub body: Seq<u8>,
}

impl View for GatewayResponse {
    type V = ResponseModel;

    open spec fn view(&self) -> ResponseModel {
        ResponseModel { head: self.head@, body: self.body@ }
    }
}

/// The response of the given status without headers or body.
pub open spec fn bare_response(status: int) -> ResponseModel {
    ResponseModel { head: HeadModel { status, headers: Seq::empty() }, body: Seq::empty() }
}

/// A response of the given status without headers or body.
pub fn empty_response(status: u16) -> (r: GatewayResponse)
    ensures
        r@ == bare_response(status as int),
{
    let r = GatewayResponse { head: ResponseHead { status, headers: Vec::new() }, body: Vec::new() };
    assert(r@.head.headers =~= Seq::empty());
    r
}

/// The response that answers a failure: its status, no headers, no body.
pub fn failure_response(error: GatewayError) -> (r: GatewayResponse)
    ensures
        r@ == bare_response(error.spec_status()),
{
    empty_response(error.status())
}

} // verus!
