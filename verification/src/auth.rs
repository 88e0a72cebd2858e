//! Who may call: everyone, or whoever presents one of the API keys.
//!
//! A key is presented in the header `x-api-key`, or as a bearer token in the
//! header `authorization`. A request that carries both is served where
//! either is an accepted key.

use vstd::prelude::*;
use crate::config::{contains_key, AuthMode, Config, ConfigModel};
use crate::headers::{first_header_text, header_map_model, header_text, HeaderEntries, Headers};
use crate::text::text_strip_prefix;

verus! {

/// The key in the header `x-api-key`.
pub open spec fn api_key_header(headers: HeaderEntries) -> Option<
    Seq<char>,
> {
    header_text(headers, "x-api-key"@)
}

/// The token in the header `authorization`, where that reads `Bearer` and a
/// token.
pub open spec fn bearer_token(headers: HeaderEntries) -> Option<
    Seq<char>,
> {
    match header_text(headers, "authorization"@) {
        Some(value) => if "Bearer "@.is_prefix_of(value) {
            Some(value.skip("Bearer "@.len() as int))
        } else {
            None
        },
        None => None,
    }
}

/// Whether the headers present one of the keys. Headers that present
/// nothing stand for the empty key.
pub open spec fn presents_key(
    headers: HeaderEntries,
    keys: Set<Seq<char>>,
) -> bool {
    match (api_key_header(headers), bearer_token(headers)) {
        (None, None) => keys.contains(Seq::empty()),
        (Some(key), None) => keys.contains(key),
        (None, Some(token)) => keys.contains(token),
        (Some(key), Some(token)) => keys.contains(key) || keys.contains(token),
    }
}

/// Whether a request with these headers is served under these settings.
pub open spec fn authorized(
    headers: HeaderEntries,
    config: ConfigModel,
) -> bool {
    config.auth_mode is Open || presents_key(headers, config.api_keys)
}

/// Decides whether a request with these headers is served.
pub fn is_authorized(headers: &Headers, config: &Config) -> (r: bool)
    ensures
        r == authorized(header_map_model(*headers), config@),
{
    match config.auth_mode {
        AuthMode::Open => true,
        AuthMode::ApiKey => {
            let key = first_header_text(headers, "x-api-key");
            let value = first_header_text(headers, "authorization");
            let token = match &value {
                Some(value) => text_strip_prefix(value.as_str(), "Bearer "),
                None => None,
            };
            match (&key, token) {
                (None, None) => {
                    proof {
                        reveal_strlit("");
                        assert(""@ =~= Seq::<char>::empty());
                    }
                    contains_key(&config.api_keys, "")
                },
                (Some(key), None) => contains_key(&config.api_keys, key.as_str()),
                (None, Some(token)) => contains_key(&config.api_keys, token),
                (Some(key), Some(token)) => contains_key(&config.api_keys, key.as_str())
                    || contains_key(&config.api_keys, token),
            }
        },
    }
}

} // verus!
