use weirdproxy::forward::{
    build_downstream_headers, build_upstream_headers, client_frame_to_upstream,
    response_declares_html, strip_body_encoding_headers, transform_response_body,
    upstream_frame_to_client, upstream_request_url, ws_upstream_url, WsFrame,
};
use weirdproxy::codec::parse_origin;
use weirdproxy::rewrite::HtmlRewriter;
use weirdproxy::state::{AlphabetDef, Config, SharedState, UrlEncodingAlgorithm};

fn fwd_cfg() -> Config {
    Config {
        url_encoding_algorithm: UrlEncodingAlgorithm::Base32(AlphabetDef::Z),
        host: String::from("0.0.0.0:3069"),
        public_host: String::from("px.test"),
    }
}

fn h(name: &str, value: &str) -> (String, Vec<u8>) {
    (String::from(name), value.as_bytes().to_vec())
}

#[test]
fn upstream_headers_replace_host_and_accept_encoding() {
    let headers = vec![
        h("cookie", "a=b"),
        h("host", "pb.px.test"),
        h("accept-encoding", "identity"),
        h("referer", "https://secret.example/"),
        h("x-forwarded-for", "10.0.0.9"),
        h("cdn-loop", "cloudflare"),
        h("cf-connecting-ip", "10.0.0.9"),
        h("cf-ray", "abc"),
        h("user-agent", "test"),
    ];
    let out = build_upstream_headers(&headers, "10.0.0.1");
    let names: Vec<&str> = out.iter().map(|p| p.0.as_str()).collect();
    assert_eq!(names, vec!["cookie", "user-agent", "host", "accept-encoding"]);
    assert_eq!(out[2].1, b"10.0.0.1".to_vec());
    assert_eq!(out[3].1, b"gzip, br, deflate, zstd".to_vec());
}

#[test]
fn downstream_headers_drop_the_stripped_set() {
    let cfg = fwd_cfg();
    let headers = vec![
        h("content-type", "text/css"),
        h("content-security-policy", "default-src 'none'"),
        h("strict-transport-security", "max-age=1"),
        h("x-frame-options", "DENY"),
        h("x-powered-by", "php"),
        h("set-cookie", "k=v"),
    ];
    let out = build_downstream_headers(&cfg, &headers);
    let names: Vec<&str> = out.iter().map(|p| p.0.as_str()).collect();
    assert_eq!(names, vec!["content-type", "set-cookie"]);
}

#[test]
fn downstream_location_is_rewritten_through_the_codec() {
    let cfg = fwd_cfg();
    let headers = vec![h("location", "https://foo.test/")];
    let out = build_downstream_headers(&cfg, &headers);
    assert_eq!(out.len(), 1);
    assert_eq!(out[0].0, "location");
    assert_eq!(
        out[0].1,
        b"https://pb48ehdu8ez163uxphz8e3muqo.px.test/".to_vec()
    );
}

#[test]
fn response_declares_html_looks_at_the_first_content_type() {
    assert!(response_declares_html(&vec![h("content-type", "text/html; charset=utf-8")]));
    assert!(!response_declares_html(&vec![h("content-type", "application/json")]));
    assert!(!response_declares_html(&vec![h("server", "x")]));
    assert!(!response_declares_html(&vec![]));
}

#[test]
fn non_html_bodies_pass_through_byte_for_byte() {
    let cfg = fwd_cfg();
    let rw = HtmlRewriter::new(SharedState { config: cfg });
    let headers = vec![h("content-type", "application/octet-stream")];
    let body: Vec<u8> = vec![0, 159, 146, 150, 255];
    let out = transform_response_body(&rw, &headers, body.clone());
    assert_eq!(out, body);
}

#[test]
fn html_bodies_are_rewritten() {
    let cfg = fwd_cfg();
    let rw = HtmlRewriter::new(SharedState { config: cfg });
    let headers = vec![h("content-type", "text/html")];
    let body = b"<html><body><a href=\"https://bar.test/x\">l</a></body></html>".to_vec();
    let out = transform_response_body(&rw, &headers, body);
    let text = String::from_utf8(out).unwrap();
    assert!(text.contains("https://pb48ehdu8ez16aubqez8e3muqo.px.test/x"));
}

#[test]
fn body_encoding_headers_are_dropped_for_rewritten_bodies() {
    let headers = vec![
        h("content-type", "text/html"),
        h("content-encoding", "gzip"),
        h("transfer-encoding", "chunked"),
        h("etag", "abc"),
    ];
    let out = strip_body_encoding_headers(&headers);
    let names: Vec<&str> = out.iter().map(|p| p.0.as_str()).collect();
    assert_eq!(names, vec!["content-type", "etag"]);
}

#[test]
fn client_close_without_frame_gets_code_1000() {
    let (frame, stop) = client_frame_to_upstream(WsFrame::Close(None));
    assert!(stop);
    match frame {
        WsFrame::Close(Some((code, reason))) => {
            assert_eq!(code, 1000);
            assert_eq!(reason, "Unknown Error");
        },
        other => panic!("unexpected frame: {:?}", other),
    }
}

#[test]
fn client_close_with_frame_is_forwarded_verbatim() {
    let (frame, stop) = client_frame_to_upstream(WsFrame::Close(Some((1001, String::new()))));
    assert!(stop);
    assert!(matches!(frame, WsFrame::Close(Some((1001, r))) if r.is_empty()));
}

#[test]
fn data_frames_are_relayed_without_stopping() {
    let (frame, stop) = client_frame_to_upstream(WsFrame::Text(String::from("hi")));
    assert!(!stop);
    assert!(matches!(frame, WsFrame::Text(t) if t == "hi"));
    let (frame, stop) = upstream_frame_to_client(WsFrame::Binary(vec![1, 2]));
    assert!(!stop);
    assert!(matches!(frame, WsFrame::Binary(b) if b == vec![1, 2]));
    let (_, stop) = upstream_frame_to_client(WsFrame::Close(Some((1000, String::new()))));
    assert!(stop);
}

#[test]
fn ws_url_maps_schemes_and_keeps_the_request_uri() {
    let https = parse_origin("https://ws.test").unwrap();
    assert_eq!(ws_upstream_url(&https, "/chat"), "wss://ws.test:443/chat");
    let http = parse_origin("http://ws.test:8080").unwrap();
    assert_eq!(ws_upstream_url(&http, "/chat?x=1"), "ws://ws.test:8080/chat?x=1");
}

#[test]
fn ws_url_omits_a_zero_port() {
    let origin = parse_origin("http://h:0").unwrap();
    assert_eq!(ws_upstream_url(&origin, "/x"), "ws://h/x");
}

#[test]
fn upstream_url_is_origin_plus_path_and_query() {
    let origin = parse_origin("http://10.0.0.1:8080").unwrap();
    assert_eq!(upstream_request_url(&origin, "/ping"), "http://10.0.0.1:8080/ping");
    assert_eq!(
        upstream_request_url(&origin, "/a/b?q=1"),
        "http://10.0.0.1:8080/a/b?q=1"
    );
}
