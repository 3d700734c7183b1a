//! Error kinds raised while handling a proxied request, and the
//! application-level error value that is turned into a 500 response.

use vstd::prelude::*;
use vstd::string::*;

verus! {

#[derive(Clone, Copy, PartialEq, Eq, Structural, Debug)]
pub enum ProxyError {
    /// The `Host` header is not a subdomain of the configured public host.
    InvalidHost,
    /// The subdomain is not a valid base32 string.
    DecodeError,
    /// The decoded bytes are not a valid `scheme://host[:port]`.
    InvalidOrigin,
    /// A transport-level failure while contacting the upstream.
    UpstreamFailure,
    /// The HTML rewriter failed mid-stream.
    RewriteError,
    /// Assembling the downstream response failed.
    ResponseBuildError,
}

pub open spec fn error_message(e: ProxyError) -> Seq<char> {
    match e {
        ProxyError::InvalidHost =>
            "The public host field from the configuration is not a suffix of the origin"@,
        ProxyError::DecodeError => "Failed to decode the proxied origin from base32"@,
        ProxyError::InvalidOrigin => "The origin must contain a scheme, host and port"@,
        ProxyError::UpstreamFailure => "Failed to reach the proxied origin"@,
        ProxyError::RewriteError => "Error rewriting HTML"@,
        ProxyError::ResponseBuildError => "Error building response"@,
    }
}

impl ProxyError {
    pub fn message(&self) -> (r: String)
        ensures
            r@ == error_message(*self),
    {
        match self {
            ProxyError::InvalidHost => String::from_str(
                "The public host field from the configuration is not a suffix of the origin",
            ),
            ProxyError::DecodeError => String::from_str(
                "Failed to decode the proxied origin from base32",
            ),
            ProxyError::InvalidOrigin => String::from_str(
                "The origin must contain a scheme, host and port",
            ),
            ProxyError::UpstreamFailure => String::from_str("Failed to reach the proxied origin"),
            ProxyError::RewriteError => String::from_str("Error rewriting HTML"),
            ProxyError::ResponseBuildError => String::from_str("Error building response"),
        }
    }
}

/// One message character as it appears inside a JSON string literal.
pub open spec fn escaped_char(c: char) -> Seq<char> {
    if c == '"' {
        seq!['\\', '"']
    } else if c == '\\' {
        seq!['\\', '\\']
    } else {
        seq![c]
    }
}

/// A message with `"` and `\` escaped for a JSON string literal.
pub open spec fn json_escaped(m: Seq<char>) -> Seq<char>
    decreases m.len(),
{
    if m.len() == 0 {
        Seq::empty()
    } else {
        json_escaped(m.drop_last()) + escaped_char(m.last())
    }
}

/// Escape `"` and `\` so the text can stand inside a JSON string literal.
pub fn json_escape(s: &str) -> (r: String)
    ensures
        r@ == json_escaped(s@),
{
    proof {
        reveal_strlit("\\\"");
        reveal_strlit("\\\\");
    }
    let n = s.unicode_len();
    let mut out = String::new();
    let mut start: usize = 0;
    let mut i: usize = 0;
    while i < n
        invariant
            n == s@.len(),
            0 <= start <= i <= n,
            "\\\""@ == seq!['\\', '"'],
            "\\\\"@ == seq!['\\', '\\'],
            forall|l: int| start <= l < i ==> s@[l] != '"' && s@[l] != '\\',
            out@ + s@.subrange(start as int, i as int) == json_escaped(s@.subrange(0, i as int)),
        decreases n - i,
    {
        let c = s.get_char(i);
        proof {
            assert(s@.subrange(0, i + 1).drop_last() =~= s@.subrange(0, i as int));
            assert(s@.subrange(0, i + 1).last() == s@[i as int]);
        }
        if c == '"' || c == '\\' {
            out.append(s.substring_char(start, i));
            if c == '"' {
                out.append("\\\"");
            } else {
                out.append("\\\\");
            }
            proof {
                assert(out@ + s@.subrange(i + 1, i + 1) =~= json_escaped(s@.subrange(0, i + 1)));
            }
            start = i + 1;
        } else {
            proof {
                assert(escaped_char(s@[i as int]) =~= seq![s@[i as int]]);
                assert(out@ + s@.subrange(start as int, i + 1) =~= json_escaped(
                    s@.subrange(0, i + 1),
                ));
            }
        }
        i = i + 1;
    }
    proof {
        assert(s@.subrange(0, n as int) =~= s@);
    }
    out.append(s.substring_char(start, n));
    proof {
        assert(out@ =~= json_escaped(s@));
    }
    out
}

/// The JSON document sent to the client with a 500 status: the message
/// stands inside the literal with its quotes and backslashes escaped.
pub open spec fn json_error_body(m: Seq<char>) -> Seq<char> {
    "{\"error\":\""@ + json_escaped(m) + "\"}"@
}

/// An error surfaced to the client as a 500 response whose body carries the
/// message as JSON.
#[derive(Clone, Debug)]
pub struct AppError {
    pub message: String,
}

impl AppError {
    pub fn from_proxy(e: ProxyError) -> (r: AppError)
        ensures
            r.message@ == error_message(e),
    {
        AppError { message: e.message() }
    }

    /// Render the `{"error": ...}` JSON body.
    pub fn body_json(&self) -> (r: String)
        ensures
            r@ == json_error_body(self.message@),
    {
        let escaped = json_escape(self.message.as_str());
        String::from_str("{\"error\":\"").concat(escaped.as_str()).concat("\"}")
    }
}

} // verus!
