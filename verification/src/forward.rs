//! The forwarding engine's decisions: request header hygiene, response
//! header stripping and `Location` rewriting, the HTML-or-stream body
//! choice, and the WebSocket relay rules. Headers are modelled as ordered
//! `(name, value)` pairs with the lowercase names the HTTP layer hands over.

use vstd::prelude::*;
use vstd::string::*;
use vstd::utf8::{valid_utf8, encode_utf8, decode_utf8};
use crate::codec::{
    encode_url, encode_url_spec, origin_url_text, string_from_utf8, Origin, Scheme,
};
use crate::error::ProxyError;
use crate::rewrite::{error_page_text, html_rewritten, rewrite_error_page, HtmlRewriter};
use crate::state::Config;
use crate::text::{contains_seq, contains_str, dec_digits, starts_with_seq, starts_with_str, str_eq};

verus! {

broadcast use vstd::utf8::encode_utf8_valid_utf8, vstd::utf8::encode_utf8_decode_utf8;

pub open spec fn view_pairs(hs: Seq<(String, Vec<u8>)>) -> Seq<(Seq<char>, Seq<u8>)> {
    hs.map_values(|p: (String, Vec<u8>)| (p.0@, p.1@))
}

// --- request headers toward the upstream ---

/// Headers never forwarded upstream: trust signals a fronting CDN injects,
/// the client's referer, and the two that are replaced outright.
pub open spec fn request_header_removed(name: Seq<char>) -> bool {
    ||| name == "referer"@
    ||| name == "x-forwarded-for"@
    ||| name == "cdn-loop"@
    ||| starts_with_seq(name, "cf-"@)
    ||| name == "host"@
    ||| name == "accept-encoding"@
}

pub open spec fn upstream_kept(hs: Seq<(Seq<char>, Seq<u8>)>) -> Seq<(Seq<char>, Seq<u8>)>
    decreases hs.len(),
{
    if hs.len() == 0 {
        Seq::empty()
    } else {
        upstream_kept(hs.drop_last()) + (if request_header_removed(hs.last().0) {
            Seq::empty()
        } else {
            seq![hs.last()]
        })
    }
}

/// The header list sent upstream: the inbound list with the removed names
/// dropped, then `Host` naming the upstream and a fixed `Accept-Encoding`.
pub open spec fn upstream_headers_spec(hs: Seq<(Seq<char>, Seq<u8>)>, host: Seq<char>) -> Seq<
    (Seq<char>, Seq<u8>),
> {
    upstream_kept(hs) + seq![
        ("host"@, encode_utf8(host)),
        ("accept-encoding"@, encode_utf8("gzip, br, deflate, zstd"@)),
    ]
}

fn request_header_removed_exec(name: &str) -> (r: bool)
    ensures
        r == request_header_removed(name@),
{
    str_eq(name, "referer") || str_eq(name, "x-forwarded-for") || str_eq(name, "cdn-loop")
        || starts_with_str(name, "cf-") || str_eq(name, "host") || str_eq(name, "accept-encoding")
}

/// Build the headers of the upstream request from the inbound ones.
pub fn build_upstream_headers(headers: &Vec<(String, Vec<u8>)>, upstream_host: &str) -> (r: Vec<
    (String, Vec<u8>),
>)
    ensures
        view_pairs(r@) == upstream_headers_spec(view_pairs(headers@), upstream_host@),
{
    let ghost hv = view_pairs(headers@);
    let mut out: Vec<(String, Vec<u8>)> = Vec::new();
    let mut i: usize = 0;
    proof {
        assert(view_pairs(out@) =~= upstream_kept(hv.subrange(0, 0)));
    }
    while i < headers.len()
        invariant
            hv == view_pairs(headers@),
            0 <= i <= headers@.len(),
            hv.len() == headers@.len(),
            view_pairs(out@) == upstream_kept(hv.subrange(0, i as int)),
        decreases headers@.len() - i,
    {
        proof {
            assert(hv.subrange(0, i + 1).drop_last() =~= hv.subrange(0, i as int));
            assert(hv.subrange(0, i + 1).last() == hv[i as int]);
        }
        let name = headers[i].0.clone();
        if !request_header_removed_exec(name.as_str()) {
            let value = vstd::slice::slice_to_vec(headers[i].1.as_slice());
            out.push((name, value));
            proof {
                assert(view_pairs(out@) =~= upstream_kept(hv.subrange(0, i + 1)));
            }
        } else {
            proof {
                assert(view_pairs(out@) =~= upstream_kept(hv.subrange(0, i + 1)));
            }
        }
        i = i + 1;
    }
    proof {
        assert(hv.subrange(0, hv.len() as int) =~= hv);
    }
    let host_bytes = upstream_host.as_bytes_vec();
    out.push((String::from_str("host"), host_bytes));
    let ae = "gzip, br, deflate, zstd".as_bytes_vec();
    out.push((String::from_str("accept-encoding"), ae));
    proof {
        assert(view_pairs(out@) =~= upstream_headers_spec(hv, upstream_host@));
    }
    out
}

// --- response headers toward the client ---

/// The security and isolation headers removed before a response reaches
/// the client.
pub open spec fn response_header_stripped(name: Seq<char>) -> bool {
    ||| name == "cross-origin-embedder-policy"@
    ||| name == "cross-origin-opener-policy"@
    ||| name == "cross-origin-resource-policy"@
    ||| name == "content-security-policy"@
    ||| name == "content-security-policy-report-only"@
    ||| name == "expect-ct"@
    ||| name == "feature-policy"@
    ||| name == "origin-isolation"@
    ||| name == "strict-transport-security"@
    ||| name == "upgrade-insecure-requests"@
    ||| name == "x-content-type-options"@
    ||| name == "x-download-options"@
    ||| name == "x-frame-options"@
    ||| name == "x-permitted-cross-domain-policies"@
    ||| name == "x-powered-by"@
    ||| name == "x-xss-protection"@
}

fn response_header_stripped_exec(name: &str) -> (r: bool)
    ensures
        r == response_header_stripped(name@),
{
    str_eq(name, "cross-origin-embedder-policy") || str_eq(name, "cross-origin-opener-policy")
        || str_eq(name, "cross-origin-resource-policy") || str_eq(name, "content-security-policy")
        || str_eq(name, "content-security-policy-report-only") || str_eq(name, "expect-ct")
        || str_eq(name, "feature-policy") || str_eq(name, "origin-isolation")
        || str_eq(name, "strict-transport-security") || str_eq(name, "upgrade-insecure-requests")
        || str_eq(name, "x-content-type-options") || str_eq(name, "x-download-options")
        || str_eq(name, "x-frame-options") || str_eq(name, "x-permitted-cross-domain-policies")
        || str_eq(name, "x-powered-by") || str_eq(name, "x-xss-protection")
}

/// A kept response header, with a `Location` value routed through
/// `encode_url`.
pub open spec fn location_rewritten(cfg: Config, p: (Seq<char>, Seq<u8>)) -> (Seq<char>, Seq<u8>) {
    if p.0 == "location"@ {
        (p.0, encode_utf8(encode_url_spec(cfg, decode_utf8(p.1))))
    } else {
        p
    }
}

pub open spec fn downstream_kept(cfg: Config, hs: Seq<(Seq<char>, Seq<u8>)>) -> Seq<
    (Seq<char>, Seq<u8>),
>
    decreases hs.len(),
{
    if hs.len() == 0 {
        Seq::empty()
    } else {
        downstream_kept(cfg, hs.drop_last()) + (if response_header_stripped(hs.last().0) {
            Seq::empty()
        } else {
            seq![location_rewritten(cfg, hs.last())]
        })
    }
}

/// Build the downstream response headers from the upstream ones: the
/// stripped set never comes through, and `Location` points back at the
/// proxy. `Location` values must be text; the HTTP layer hands them over
/// that way.
pub fn build_downstream_headers(config: &Config, headers: &Vec<(String, Vec<u8>)>) -> (r: Vec<
    (String, Vec<u8>),
>)
    requires
        forall|i: int| 0 <= i < headers@.len() ==> (((#[trigger] headers@[i]).0@ == "location"@)
            ==> valid_utf8(headers@[i].1@)),
    ensures
        view_pairs(r@) == downstream_kept(*config, view_pairs(headers@)),
        forall|i: int| 0 <= i < r@.len() ==> !response_header_stripped((#[trigger] r@[i]).0@),
{
    let ghost hv = view_pairs(headers@);
    let mut out: Vec<(String, Vec<u8>)> = Vec::new();
    let mut i: usize = 0;
    proof {
        assert(view_pairs(out@) =~= downstream_kept(*config, hv.subrange(0, 0)));
    }
    while i < headers.len()
        invariant
            hv == view_pairs(headers@),
            0 <= i <= headers@.len(),
            hv.len() == headers@.len(),
            forall|l: int| 0 <= l < headers@.len() ==> (((#[trigger] headers@[l]).0@
                == "location"@) ==> valid_utf8(headers@[l].1@)),
            view_pairs(out@) == downstream_kept(*config, hv.subrange(0, i as int)),
            forall|l: int| 0 <= l < out@.len() ==> !response_header_stripped(
                (#[trigger] out@[l]).0@,
            ),
        decreases headers@.len() - i,
    {
        proof {
            assert(hv.subrange(0, i + 1).drop_last() =~= hv.subrange(0, i as int));
            assert(hv.subrange(0, i + 1).last() == hv[i as int]);
        }
        let name = headers[i].0.clone();
        if !response_header_stripped_exec(name.as_str()) {
            let value = vstd::slice::slice_to_vec(headers[i].1.as_slice());
            if str_eq(name.as_str(), "location") {
                match string_from_utf8(value) {
                    Some(loc) => {
                        let encoded = encode_url(config, loc.as_str());
                        out.push((name, encoded.as_str().as_bytes_vec()));
                    },
                    None => {
                        proof {
                            assert(false);
                        }
                        out.push((name, Vec::new()));
                    },
                }
            } else {
                out.push((name, value));
            }
            proof {
                assert(view_pairs(out@) =~= downstream_kept(*config, hv.subrange(0, i + 1)));
            }
        } else {
            proof {
                assert(view_pairs(out@) =~= downstream_kept(*config, hv.subrange(0, i + 1)));
            }
        }
        i = i + 1;
    }
    proof {
        assert(hv.subrange(0, hv.len() as int) =~= hv);
    }
    out
}

// --- body handling ---

/// The first value carried by a header of the given name.
pub open spec fn first_named(hs: Seq<(Seq<char>, Seq<u8>)>, name: Seq<char>) -> Option<Seq<u8>>
    decreases hs.len(),
{
    if hs.len() == 0 {
        None
    } else if hs[0].0 == name {
        Some(hs[0].1)
    } else {
        first_named(hs.drop_first(), name)
    }
}

/// The response declares an HTML body: its first `Content-Type` value is
/// text containing `text/html`. A value that is not text declares nothing.
pub open spec fn declares_html(hs: Seq<(Seq<char>, Seq<u8>)>) -> bool {
    match first_named(hs, "content-type"@) {
        None => false,
        Some(v) => valid_utf8(v) && contains_seq(decode_utf8(v), "text/html"@),
    }
}

pub fn response_declares_html(headers: &Vec<(String, Vec<u8>)>) -> (r: bool)
    ensures
        r == declares_html(view_pairs(headers@)),
{
    let ghost hv = view_pairs(headers@);
    let mut i: usize = 0;
    proof {
        assert(hv.subrange(0, hv.len() as int) =~= hv);
    }
    while i < headers.len()
        invariant
            hv == view_pairs(headers@),
            0 <= i <= headers@.len(),
            hv.len() == headers@.len(),
            first_named(hv, "content-type"@) == first_named(
                hv.subrange(i as int, hv.len() as int),
                "content-type"@,
            ),
        decreases headers@.len() - i,
    {
        proof {
            assert(hv.subrange(i as int, hv.len() as int).drop_first() =~= hv.subrange(
                i + 1,
                hv.len() as int,
            ));
            assert(hv.subrange(i as int, hv.len() as int)[0] == hv[i as int]);
        }
        if str_eq(headers[i].0.as_str(), "content-type") {
            let value = vstd::slice::slice_to_vec(headers[i].1.as_slice());
            match string_from_utf8(value) {
                None => {
                    return false;
                },
                Some(s) => {
                    return contains_str(s.as_str(), "text/html");
                },
            }
        }
        i = i + 1;
    }
    proof {
        assert(hv.subrange(hv.len() as int, hv.len() as int).len() == 0);
    }
    false
}

/// Headers describing the transport encoding of the original body; removed
/// when the body is replaced by its rewritten form.
pub open spec fn body_encoding_removed(name: Seq<char>) -> bool {
    name == "content-encoding"@ || name == "transfer-encoding"@
}

pub open spec fn without_body_encoding(hs: Seq<(Seq<char>, Seq<u8>)>) -> Seq<(Seq<char>, Seq<u8>)>
    decreases hs.len(),
{
    if hs.len() == 0 {
        Seq::empty()
    } else {
        without_body_encoding(hs.drop_last()) + (if body_encoding_removed(hs.last().0) {
            Seq::empty()
        } else {
            seq![hs.last()]
        })
    }
}

/// Drop `Content-Encoding` and `Transfer-Encoding` from a header list.
pub fn strip_body_encoding_headers(headers: &Vec<(String, Vec<u8>)>) -> (r: Vec<
    (String, Vec<u8>),
>)
    ensures
        view_pairs(r@) == without_body_encoding(view_pairs(headers@)),
{
    let ghost hv = view_pairs(headers@);
    let mut out: Vec<(String, Vec<u8>)> = Vec::new();
    let mut i: usize = 0;
    proof {
        assert(view_pairs(out@) =~= without_body_encoding(hv.subrange(0, 0)));
    }
    while i < headers.len()
        invariant
            hv == view_pairs(headers@),
            0 <= i <= headers@.len(),
            hv.len() == headers@.len(),
            view_pairs(out@) == without_body_encoding(hv.subrange(0, i as int)),
        decreases headers@.len() - i,
    {
        proof {
            assert(hv.subrange(0, i + 1).drop_last() =~= hv.subrange(0, i as int));
            assert(hv.subrange(0, i + 1).last() == hv[i as int]);
        }
        let name = headers[i].0.clone();
        if !(str_eq(name.as_str(), "content-encoding") || str_eq(name.as_str(), "transfer-encoding")) {
            let value = vstd::slice::slice_to_vec(headers[i].1.as_slice());
            out.push((name, value));
        }
        proof {
            assert(view_pairs(out@) =~= without_body_encoding(hv.subrange(0, i + 1)));
        }
        i = i + 1;
    }
    proof {
        assert(hv.subrange(0, hv.len() as int) =~= hv);
    }
    out
}

/// Transform a buffered response body: a body whose response does not
/// declare HTML passes through byte for byte; a declared HTML body is
/// rewritten, or replaced by the error page when the rewriter fails.
pub fn transform_response_body(
    rw: &HtmlRewriter,
    headers: &Vec<(String, Vec<u8>)>,
    body: Vec<u8>,
) -> (r: Vec<u8>)
    ensures
        !declares_html(view_pairs(headers@)) ==> r@ == body@,
        declares_html(view_pairs(headers@)) ==> r@ == (match html_rewritten(
            rw.state_spec().config.url_encoding_algorithm.alphabet_spec(),
            rw.state_spec().config.url_encoding_algorithm.key_spec(),
            rw.state_spec().config.public_host@,
            body@,
        ) {
            Some(v) => v,
            None => encode_utf8(error_page_text()),
        }),
{
    if response_declares_html(headers) {
        match rw.rewrite_html(body) {
            Ok(v) => v,
            Err(_) => rewrite_error_page(),
        }
    } else {
        body
    }
}

// --- the WebSocket bridge's decisions ---

/// A relayed WebSocket frame. A close frame may carry a code and reason.
#[derive(Clone, Debug)]
pub enum WsFrame {
    Text(String),
    Binary(Vec<u8>),
    Ping(Vec<u8>),
    Pong(Vec<u8>),
    Close(Option<(u16, String)>),
}

/// What the client-to-upstream relay does with one frame: forward it
/// verbatim, except that a bare close is given code 1000 and a fixed
/// reason; the second component says whether the relay stops afterwards.
pub fn client_frame_to_upstream(frame: WsFrame) -> (r: (WsFrame, bool))
    ensures
        match frame {
            WsFrame::Close(c) => match c {
                Some(cr) => r == (WsFrame::Close(Some(cr)), true),
                None => (r.0 matches WsFrame::Close(Some(p)) && p.0 == 1000 && p.1@
                    == "Unknown Error"@) && r.1,
            },
            _ => r == (frame, false),
        },
{
    match frame {
        WsFrame::Text(t) => (WsFrame::Text(t), false),
        WsFrame::Binary(b) => (WsFrame::Binary(b), false),
        WsFrame::Ping(d) => (WsFrame::Ping(d), false),
        WsFrame::Pong(d) => (WsFrame::Pong(d), false),
        WsFrame::Close(Some(cr)) => (WsFrame::Close(Some(cr)), true),
        WsFrame::Close(None) => (
            WsFrame::Close(Some((1000, String::from_str("Unknown Error")))),
            true,
        ),
    }
}

/// The upstream-to-client relay forwards every frame verbatim and stops
/// after a close.
pub fn upstream_frame_to_client(frame: WsFrame) -> (r: (WsFrame, bool))
    ensures
        match frame {
            WsFrame::Close(c) => r == (WsFrame::Close(c), true),
            _ => r == (frame, false),
        },
{
    match frame {
        WsFrame::Text(t) => (WsFrame::Text(t), false),
        WsFrame::Binary(b) => (WsFrame::Binary(b), false),
        WsFrame::Ping(d) => (WsFrame::Ping(d), false),
        WsFrame::Pong(d) => (WsFrame::Pong(d), false),
        WsFrame::Close(c) => (WsFrame::Close(c), true),
    }
}

pub open spec fn ws_scheme_text(sc: Scheme) -> Seq<char> {
    match sc {
        Scheme::Http => "ws"@,
        Scheme::Https => "wss"@,
    }
}

/// The upstream WebSocket URL: `ws` for http origins and `wss` for https,
/// the origin's host, a `:port` suffix unless the port is zero, then the
/// inbound request URI.
pub open spec fn ws_url_text(sc: Scheme, host: Seq<char>, port: u16, uri: Seq<char>) -> Seq<char> {
    ws_scheme_text(sc) + "://"@ + host + (if port == 0 {
        Seq::<char>::empty()
    } else {
        ":"@ + dec_digits(port as int)
    }) + uri
}

pub fn ws_upstream_url(origin: &Origin, request_uri: &str) -> (r: String)
    ensures
        r@ == ws_url_text(origin.scheme_spec(), origin.host_spec(), origin.port_spec(),
            request_uri@),
{
    let mut s = match origin.scheme() {
        Scheme::Http => String::from_str("ws"),
        Scheme::Https => String::from_str("wss"),
    };
    s.append("://");
    s.append(origin.host());
    if origin.port() != 0 {
        s.append(":");
        let d = crate::text::u16_to_dec(origin.port());
        s.append(d.as_str());
    }
    s.append(request_uri);
    proof {
        assert(s@ =~= ws_url_text(origin.scheme_spec(), origin.host_spec(), origin.port_spec(),
            request_uri@));
    }
    s
}

/// The URL of the upstream HTTP request: the origin's URL prefix followed
/// by the inbound path and query.
pub fn upstream_request_url(origin: &Origin, path_and_query: &str) -> (r: String)
    ensures
        r@ == origin_url_text(origin.scheme_spec(), origin.host_spec(), origin.port_spec())
            + path_and_query@,
{
    let prefix = origin.to_url_string();
    prefix.concat(path_and_query)
}

} // verus!
