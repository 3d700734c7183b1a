use weirdproxy::api::{index_body, is_api_host, post_encode, EncodeUrlRequest};
use weirdproxy::error::{AppError, ProxyError};
use weirdproxy::rewrite::{attr_rewrites, head_script_tag, HtmlRewriter, Rewriter};
use weirdproxy::state::{APIState, AlphabetDef, Config, SharedState, UrlEncodingAlgorithm};

fn api_cfg() -> Config {
    Config {
        url_encoding_algorithm: UrlEncodingAlgorithm::Base32(AlphabetDef::Z),
        host: String::from("0.0.0.0:3069"),
        public_host: String::from("px.test"),
    }
}

#[test]
fn rewriter_encodes_links_and_injects_the_script() {
    let rw = HtmlRewriter::new(SharedState { config: api_cfg() });
    let input = b"<html><head><title>t</title></head><body>\
        <a href=\"https://bar.test/x\">l</a>\
        <img src=\"/rel.png\">\
        <video poster=\"https://bar.test/p.jpg\"></video>\
        </body></html>"
        .to_vec();
    let out = rw.rewrite(input).unwrap();
    let text = String::from_utf8(out).unwrap();
    assert!(text.contains("href=\"https://pb48ehdu8ez16aubqez8e3muqo.px.test/x\""));
    assert!(text.contains("poster=\"https://pb48ehdu8ez16aubqez8e3muqo.px.test/p.jpg\""));
    // A relative src is left alone.
    assert!(text.contains("src=\"/rel.png\""));
    // The patch script is the first child of head.
    let head_at = text.find("<head>").unwrap();
    let script_at = text.find("<script type=\"text/javascript\">").unwrap();
    assert_eq!(script_at, head_at + "<head>".len());
}

#[test]
fn rewriter_handles_documents_without_a_head() {
    let rw = HtmlRewriter::new(SharedState { config: api_cfg() });
    let out = rw.rewrite(b"<p>plain</p>".to_vec()).unwrap();
    let text = String::from_utf8(out).unwrap();
    assert!(text.contains("<p>plain</p>"));
    assert!(!text.contains("<script"));
}

#[test]
fn attr_rewrites_touch_only_present_attributes() {
    let cfg = api_cfg();
    let writes = attr_rewrites(
        &cfg,
        Some(String::from("https://bar.test/x")),
        None,
        Some(String::from("/rel.png")),
    );
    assert_eq!(writes.len(), 2);
    assert_eq!(writes[0].0, "href");
    assert_eq!(writes[0].1, "https://pb48ehdu8ez16aubqez8e3muqo.px.test/x");
    // A relative poster value passes through encode_url unchanged.
    assert_eq!(writes[1].0, "poster");
    assert_eq!(writes[1].1, "/rel.png");
}

#[test]
fn head_script_is_a_typed_script_tag() {
    let script = head_script_tag();
    assert!(script.starts_with("<script type=\"text/javascript\">"));
    assert!(script.ends_with("</script>"));
}

#[test]
fn post_encode_behaves_exactly_like_encode_url() {
    let state = APIState { config: api_cfg() };
    let res = post_encode(&state, EncodeUrlRequest { url: String::from("https://example.com/a") });
    assert_eq!(res.encoded_url, "https://pb48ehdu8ez163macfszy5dff3ts65e.px.test/a");
    let res = post_encode(&state, EncodeUrlRequest { url: String::from("not a url") });
    assert_eq!(res.encoded_url, "not a url");
}

#[test]
fn index_reports_the_configured_host() {
    let state = APIState { config: api_cfg() };
    let body = index_body(&state);
    assert!(body.starts_with("Hello, world! Configured host:"));
    assert_eq!(body, "Hello, world! Configured host: 0.0.0.0:3069");
}

#[test]
fn api_host_match_ignores_case_and_port() {
    let cfg = api_cfg();
    assert!(is_api_host(&cfg, "api.px.test"));
    assert!(is_api_host(&cfg, "API.px.test"));
    assert!(is_api_host(&cfg, "api.px.test:3069"));
    assert!(is_api_host(&cfg, "Api.PX.Test:443"));
    // Still strict equality on the host portion: no wildcard or suffix.
    assert!(!is_api_host(&cfg, "px.test"));
    assert!(!is_api_host(&cfg, "xapi.px.test"));
    assert!(!is_api_host(&cfg, "api.px.test.evil.example"));
}

#[test]
fn error_messages_and_json_bodies_are_fixed() {
    assert_eq!(
        ProxyError::DecodeError.message(),
        "Failed to decode the proxied origin from base32"
    );
    assert_eq!(
        ProxyError::InvalidHost.message(),
        "The public host field from the configuration is not a suffix of the origin"
    );
    assert_eq!(
        ProxyError::InvalidOrigin.message(),
        "The origin must contain a scheme, host and port"
    );
    let e = AppError::from_proxy(ProxyError::ResponseBuildError);
    assert_eq!(e.body_json(), "{\"error\":\"Error building response\"}");
}

#[test]
fn json_bodies_escape_quotes_and_backslashes() {
    let e = AppError { message: String::from("a\"b\\c") };
    assert_eq!(e.body_json(), "{\"error\":\"a\\\"b\\\\c\"}");
    let plain = AppError { message: String::from("plain text") };
    assert_eq!(plain.body_json(), "{\"error\":\"plain text\"}");
}
