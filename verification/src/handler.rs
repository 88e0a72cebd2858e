//! What the gateway does with a request: authorize it, translate it, have
//! the backend invoked, and answer with what comes back.
//!
//! The call of the backend is the caller's part. [`handler`] says whether to
//! make it and with what payload; the reply then goes through
//! [`handle_buffered_response`](crate::buffered::handle_buffered_response)
//! or a [`StreamDecoder`](crate::streaming::StreamDecoder).

use vstd::prelude::*;
use crate::auth::{authorized, is_authorized};
use crate::config::{Config, ConfigModel, LambdaInvokeMode};
use crate::headers::{header_map_model, HeaderEntries, Headers};
use crate::json::json_text;
use crate::query::{query_map_model, query_map_walkable};
use crate::request::{
    build_alb_request_body, headers_are_text, last_header_values, last_query_values, payload_model,
};
use crate::response::{
    bare_response, empty_response, failure_response, GatewayError, GatewayResponse, ResponseModel,
    STATUS_OK,
};
use crate::utils::{
    body_text, declared_content_type, must_base64_encode, transform_body,
    whether_should_base64_encode,
};

verus! {

/// What is to be done with a request.
#[derive(Debug, Clone, PartialEq, Eq)]
pub enum HandlerAction {
    /// Answer at once with this response, without a call of the backend.
    Respond(GatewayResponse),
    /// Invoke the function with this payload, and expect the reply in this
    /// mode.
    Invoke { mode: LambdaInvokeMode, function_name: String, payload: String },
}

/// What a handler action holds.
pub enum PlanModel {
    Respond(ResponseModel),
    Invoke { mode: LambdaInvokeMode, function_name: Seq<char>, payload: Seq<char> },
}

impl View for HandlerAction {
    type V = PlanModel;

    open spec fn view(&self) -> PlanModel {
        match self {
            HandlerAction::Respond(response) => PlanModel::Respond(response@),
            HandlerAction::Invoke { mode, function_name, payload } => PlanModel::Invoke {
                mode: *mode,
                function_name: function_name@,
                payload: payload@,
            },
        }
    }
}

/// The text of the invocation payload for a request: its body as base64
/// where the declared content type asks for that, as text otherwise; each
/// query parameter and header with its last value.
pub open spec fn request_payload(
    method: Seq<char>,
    path: Seq<char>,
    query: Map<Seq<char>, Seq<Seq<char>>>,
    headers: HeaderEntries,
    body: Seq<u8>,
) -> Seq<char> {
    let encode = must_base64_encode(declared_content_type(headers));
    json_text(
        payload_model(
            encode,
            last_query_values(query),
            method,
            path,
            last_header_values(headers),
            body_text(encode, body),
        ),
    )
}

/// What is to be done with a request under the given settings. A request
/// that is not authorized is answered with status 401 before anything else
/// is looked at. One whose headers cannot be carried is answered with
/// status 500. Every other is translated, and the function is to be invoked
/// in the mode that the settings name.
pub open spec fn handler_plan(
    config: ConfigModel,
    method: Seq<char>,
    path: Seq<char>,
    query: Map<Seq<char>, Seq<Seq<char>>>,
    headers: HeaderEntries,
    body: Seq<u8>,
) -> PlanModel {
    if !authorized(headers, config) {
        PlanModel::Respond(bare_response(401))
    } else if !headers_are_text(headers) {
        PlanModel::Respond(bare_response(500))
    } else {
        PlanModel::Invoke {
            mode: config.lambda_invoke_mode,
            function_name: config.lambda_function_name,
            payload: request_payload(method, path, query, headers, body),
        }
    }
}

/// Answers the liveness probe: status 200, no headers, no body.
pub fn health() -> (r: GatewayResponse)
    ensures
        r@ == bare_response(200),
{
    empty_response(STATUS_OK)
}

/// Decides what is to be done with a request: answer it at once, or invoke
/// the backend with the payload made of it.
pub fn handler(
    config: &Config,
    method: &str,
    path: &str,
    query_string_parameters: &aws_lambda_events::query_map::QueryMap,
    headers: &Headers,
    body: &[u8],
) -> (action: HandlerAction)
    requires
        query_map_walkable(*query_string_parameters),
    ensures
        action@ == handler_plan(
            config@,
            method@,
            path@,
            query_map_model(*query_string_parameters),
            header_map_model(*headers),
            body@,
        ),
{
    if !is_authorized(headers, config) {
        return HandlerAction::Respond(failure_response(GatewayError::AuthorizationDenied));
    }
    let is_base64_encoded = whether_should_base64_encode(headers);
    let body = transform_body(is_base64_encoded, body);
    match build_alb_request_body(
        is_base64_encoded,
        query_string_parameters,
        method,
        path,
        headers,
        body.as_str(),
    ) {
        Ok(payload) => HandlerAction::Invoke {
            mode: config.lambda_invoke_mode,
            function_name: config.lambda_function_name.clone(),
            payload,
        },
        Err(e) => HandlerAction::Respond(failure_response(e)),
    }
}

/// Answers a request whose invocation failed: status 500, no headers, no
/// body.
pub fn handle_invoke_error() -> (r: GatewayResponse)
    ensures
        r@ == bare_response(500),
{
    failure_response(GatewayError::InvocationError)
}

/// A request that is not authorized is never invoked: whatever else it
/// holds, it is answered at once with status 401 and nothing more.
pub proof fn lemma_unauthorized_is_answered_at_once(
    config: ConfigModel,
    method: Seq<char>,
    path: Seq<char>,
    query: Map<Seq<char>, Seq<Seq<char>>>,
    headers: HeaderEntries,
    body: Seq<u8>,
)
    requires
        !authorized(headers, config),
    ensures
        handler_plan(config, method, path, query, headers, body) == PlanModel::Respond(
            bare_response(401),
        ),
{
}

/// Under open settings every request whose headers are text is invoked, in
/// the mode and with the function that the settings name.
pub proof fn lemma_open_gateway_invokes(
    config: ConfigModel,
    method: Seq<char>,
    path: Seq<char>,
    query: Map<Seq<char>, Seq<Seq<char>>>,
    headers: HeaderEntries,
    body: Seq<u8>,
)
    requires
        config.auth_mode is Open,
        headers_are_text(headers),
    ensures
        handler_plan(config, method, path, query, headers, body) == (PlanModel::Invoke {
            mode: config.lambda_invoke_mode,
            function_name: config.lambda_function_name,
            payload: request_payload(method, path, query, headers, body),
        }),
{
}

} // verus!
