//! The core of an HTTP gateway in front of a function-invocation backend.
//!
//! The gateway turns each request into an invocation payload, has the
//! backend invoked, and turns the reply into an HTTP response. A reply comes
//! either as one buffered payload or as a stream of chunks that may begin
//! with a prelude. This crate holds the rules of that work, each with a
//! contract that is proved; calling the backend and talking HTTP are left to
//! the program around it.
//!
//! - [`handler`] decides what is to be done with a request.
//! - [`auth`] says who may call, [`utils`] how a body travels, and
//!   [`request`] builds the invocation payload.
//! - [`buffered`] decodes a buffered reply.
//! - [`streaming`] decodes a streamed reply event by event; [`framing`] finds
//!   the end of its prelude and [`metadata`] reads the prelude and makes the
//!   head of the response.
//! - [`config`] holds the settings.
//! - [`response`] and [`schema`] hold what the replies share.
//! - [`json`], [`headers`], [`query`], [`encoding`] and [`text`] are the
//!   doors to `serde_json`, `http`, `query_map`, `base64` and `std`: the
//!   calls into them are thin, and their contracts are taken on trust.

pub mod auth;
pub mod buffered;
pub mod config;
pub mod encoding;
pub mod framing;
pub mod handler;
pub mod headers;
pub mod json;
pub mod metadata;
pub mod query;
pub mod request;
pub mod response;
pub mod schema;
pub mod streaming;
pub mod text;
pub mod utils;
