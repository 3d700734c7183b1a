//! The control API's behavior, and the hostname router's dispatch test.

use vstd::prelude::*;
use vstd::string::*;
use crate::codec::{encode_url, encode_url_spec, strip_port_text};
use crate::state::{APIState, Config};
use crate::text::{rfind_char, seq_eq_ci, str_eq_ci};

verus! {

/// The body of a `POST /encode` request.
pub struct EncodeUrlRequest {
    pub url: String,
}

/// The body of a `POST /encode` response.
pub struct EncodeUrlResponse {
    pub encoded_url: String,
}

/// The `POST /encode` endpoint: its behavior is exactly `encode_url`.
pub fn post_encode(state: &APIState, req: EncodeUrlRequest) -> (r: EncodeUrlResponse)
    ensures
        r.encoded_url@ == encode_url_spec(state.config, req.url@),
{
    EncodeUrlResponse { encoded_url: encode_url(&state.config, req.url.as_str()) }
}

pub open spec fn index_body_text(cfg: Config) -> Seq<char> {
    "Hello, world! Configured host: "@ + cfg.host@
}

/// The `GET /` diagnostic body.
pub fn index_body(state: &APIState) -> (r: String)
    ensures
        r@ == index_body_text(state.config),
{
    String::from_str("Hello, world! Configured host: ").concat(state.config.host.as_str())
}

/// The hostname router's test: a request belongs to the control API when
/// the host portion of its `Host` header — any `:port` suffix ignored —
/// equals `api.` + the public host up to ASCII letter case. The match is
/// strict equality on that portion: no wildcard or suffix.
pub fn is_api_host(config: &Config, host: &str) -> (r: bool)
    ensures
        r == seq_eq_ci(strip_port_text(host@), "api."@ + config.public_host@),
{
    let h: &str = match rfind_char(host, ':') {
        None => host,
        Some(i) => host.substring_char(0, i),
    };
    let expected = String::from_str("api.").concat(config.public_host.as_str());
    str_eq_ci(h, expected.as_str())
}

} // verus!
