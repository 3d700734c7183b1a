use weirdproxy::codec::{encode_url, parse_origin, proxied_origin, Origin, Scheme};
use weirdproxy::error::ProxyError;
use weirdproxy::state::{AlphabetDef, Config, UrlEncodingAlgorithm};

fn cfg_z(public_host: &str) -> Config {
    Config {
        url_encoding_algorithm: UrlEncodingAlgorithm::Base32(AlphabetDef::Z),
        host: String::from("0.0.0.0:3069"),
        public_host: String::from(public_host),
    }
}

fn cfg_z_xor(public_host: &str, key: Vec<u8>) -> Config {
    Config {
        url_encoding_algorithm: UrlEncodingAlgorithm::Base32Xor(AlphabetDef::Z, key),
        host: String::from("0.0.0.0:3069"),
        public_host: String::from(public_host),
    }
}

#[test]
fn encode_url_encodes_origin_and_keeps_path_only() {
    let cfg = cfg_z("px.test");
    let out = encode_url(&cfg, "https://example.com/a?b=1");
    // The query is dropped by the encoder; only the path is carried.
    assert_eq!(out, "https://pb48ehdu8ez163macfszy5dff3ts65e.px.test/a");
}

#[test]
fn encode_url_matches_base32_crate() {
    let cfg = cfg_z("px.test");
    let out = encode_url(&cfg, "https://example.com/a");
    let label = base32::encode(base32::Alphabet::Z, b"https://example.com");
    assert_eq!(out, format!("https://{}.px.test/a", label));
}

#[test]
fn encode_url_keeps_port_when_named() {
    let cfg = cfg_z("px.test");
    let out = encode_url(&cfg, "http://10.0.0.1:8080/ping");
    assert_eq!(out, "https://pb48ehb4fhzuncbqgyzdymtt8ehdyqbo.px.test/ping");
}

#[test]
fn encode_url_returns_relative_input_unchanged() {
    let cfg = cfg_z("px.test");
    assert_eq!(encode_url(&cfg, "/just/a/path"), "/just/a/path");
    assert_eq!(encode_url(&cfg, "nothing here"), "nothing here");
    assert_eq!(encode_url(&cfg, ""), "");
}

#[test]
fn encode_url_returns_malformed_absolute_input_unchanged() {
    let cfg = cfg_z("px.test");
    // Contains the marker but does not parse as an absolute URI.
    assert_eq!(encode_url(&cfg, "ht tp://bad host"), "ht tp://bad host");
    assert_eq!(encode_url(&cfg, "https://exa mple.com/"), "https://exa mple.com/");
}

#[test]
fn round_trip_decodes_back_to_the_origin() {
    let cfg = cfg_z("px.test");
    let encoded = encode_url(&cfg, "https://example.com/a");
    // Hostname of the encoded URL: between "https://" and the path.
    let host = &encoded["https://".len()..encoded.len() - "/a".len()];
    assert_eq!(host, "pb48ehdu8ez163macfszy5dff3ts65e.px.test");
    let origin = proxied_origin(&cfg, host).unwrap();
    assert_eq!(origin.scheme(), Scheme::Https);
    assert_eq!(origin.host(), "example.com");
    assert_eq!(origin.port(), 443);
}

#[test]
fn round_trip_with_xor_key() {
    let cfg = cfg_z_xor("px.test", vec![1, 2, 3]);
    let encoded = encode_url(&cfg, "http://10.0.0.1:8080/ping");
    let host = &encoded["https://".len()..encoded.len() - "/ping".len()];
    let origin = proxied_origin(&cfg, host).unwrap();
    assert_eq!(origin.scheme(), Scheme::Http);
    assert_eq!(origin.host(), "10.0.0.1");
    assert_eq!(origin.port(), 8080);
}

#[test]
fn xor_with_nonzero_key_changes_the_label() {
    let plain = cfg_z("px.test");
    let masked = cfg_z_xor("px.test", vec![1, 2, 3]);
    assert_ne!(
        encode_url(&plain, "https://example.com/"),
        encode_url(&masked, "https://example.com/")
    );
}

#[test]
fn xor_with_all_zero_key_changes_nothing() {
    let plain = cfg_z("px.test");
    let masked = cfg_z_xor("px.test", vec![0, 0, 0, 0]);
    assert_eq!(
        encode_url(&plain, "https://example.com/"),
        encode_url(&masked, "https://example.com/")
    );
}

#[test]
fn proxied_origin_decodes_a_plain_label() {
    let cfg = cfg_z("px.test");
    let label = base32::encode(base32::Alphabet::Z, b"http://10.0.0.1:8080");
    let origin = proxied_origin(&cfg, &format!("{}.px.test", label)).unwrap();
    assert_eq!(origin.scheme(), Scheme::Http);
    assert_eq!(origin.host(), "10.0.0.1");
    assert_eq!(origin.port(), 8080);
}

#[test]
fn proxied_origin_ignores_a_port_on_the_host_header() {
    let cfg = cfg_z("px.test");
    let label = base32::encode(base32::Alphabet::Z, b"https://ws.test");
    let origin = proxied_origin(&cfg, &format!("{}.px.test:443", label)).unwrap();
    assert_eq!(origin.host(), "ws.test");
    assert_eq!(origin.port(), 443);
}

#[test]
fn empty_host_is_invalid_host() {
    let cfg = cfg_z("px.test");
    assert_eq!(proxied_origin(&cfg, "").unwrap_err(), ProxyError::InvalidHost);
}

#[test]
fn foreign_host_is_invalid_host() {
    let cfg = cfg_z("px.test");
    assert_eq!(proxied_origin(&cfg, "other.example").unwrap_err(), ProxyError::InvalidHost);
}

#[test]
fn bare_public_host_is_invalid_host() {
    let cfg = cfg_z("px.test");
    assert_eq!(proxied_origin(&cfg, "px.test").unwrap_err(), ProxyError::InvalidHost);
}

#[test]
fn base32_invalid_subdomain_is_decode_error() {
    let cfg = cfg_z("px.test");
    assert_eq!(proxied_origin(&cfg, "!!!.px.test").unwrap_err(), ProxyError::DecodeError);
}

#[test]
fn non_utf8_payload_is_invalid_origin() {
    let cfg = cfg_z("px.test");
    let label = base32::encode(base32::Alphabet::Z, &[0xff, 0xfe, 0xff]);
    assert_eq!(
        proxied_origin(&cfg, &format!("{}.px.test", label)).unwrap_err(),
        ProxyError::InvalidOrigin
    );
}

#[test]
fn payload_without_scheme_marker_is_invalid_origin() {
    let cfg = cfg_z("px.test");
    let label = base32::encode(base32::Alphabet::Z, b"hello");
    assert_eq!(
        proxied_origin(&cfg, &format!("{}.px.test", label)).unwrap_err(),
        ProxyError::InvalidOrigin
    );
}

#[test]
fn payload_with_slash_in_host_is_invalid_origin() {
    let cfg = cfg_z("px.test");
    let label = base32::encode(base32::Alphabet::Z, b"http://a/b");
    assert_eq!(
        proxied_origin(&cfg, &format!("{}.px.test", label)).unwrap_err(),
        ProxyError::InvalidOrigin
    );
}

#[test]
fn parse_origin_defaults_ports_by_scheme() {
    let http = parse_origin("http://example.com").unwrap();
    assert_eq!(http.scheme(), Scheme::Http);
    assert_eq!(http.host(), "example.com");
    assert_eq!(http.port(), 80);
    let https = parse_origin("https://example.com").unwrap();
    assert_eq!(https.port(), 443);
}

#[test]
fn parse_origin_reads_an_explicit_port() {
    let o = parse_origin("https://h:8443").unwrap();
    assert_eq!(o.host(), "h");
    assert_eq!(o.port(), 8443);
}

#[test]
fn parse_origin_rejects_bad_input() {
    assert!(parse_origin("").is_err());
    assert!(parse_origin("example.com").is_err());
    assert!(parse_origin("ftp://example.com").is_err());
    assert!(parse_origin("http://h:notaport").is_err());
    assert!(parse_origin("http://h:65536").is_err());
    assert!(parse_origin("http://").is_err());
}

#[test]
fn only_a_single_trailing_dot_is_trimmed() {
    let cfg = cfg_z("px.test");
    let label = base32::encode(base32::Alphabet::Z, b"https://example.com");
    // One separating dot decodes; a second dot stays in the label and is
    // not a base32 character.
    assert_eq!(
        proxied_origin(&cfg, &format!("{}..px.test", label)).unwrap_err(),
        ProxyError::DecodeError
    );
}

#[test]
fn dotted_only_subdomain_is_invalid_origin() {
    let cfg = cfg_z("px.test");
    // The label trims to nothing, decodes to no bytes, and fails in origin
    // parsing, as the boundary rules say.
    assert_eq!(proxied_origin(&cfg, ".px.test").unwrap_err(), ProxyError::InvalidOrigin);
    assert_eq!(proxied_origin(&cfg, "..px.test").unwrap_err(), ProxyError::DecodeError);
}

#[test]
fn parse_origin_accepts_an_explicit_zero_port() {
    let o = parse_origin("http://h:0").unwrap();
    assert_eq!(o.port(), 0);
}

#[test]
fn parse_origin_accepts_a_plus_signed_port() {
    // u16 parsing accepts a leading plus sign, as str::parse does.
    let o = parse_origin("http://h:+80").unwrap();
    assert_eq!(o.port(), 80);
}

#[test]
fn origins_compare_by_contents() {
    let a = parse_origin("http://h:80").unwrap();
    let b = parse_origin("http://h").unwrap();
    let c = parse_origin("http://h:81").unwrap();
    assert_eq!(a, b);
    assert_ne!(a, c);
}

#[test]
fn origin_url_string_always_names_the_port() {
    let o = parse_origin("http://example.com").unwrap();
    assert_eq!(o.to_url_string(), "http://example.com:80");
    let p: Origin = parse_origin("https://h:8443").unwrap();
    assert_eq!(p.to_url_string(), "https://h:8443");
}

#[test]
fn padded_rfc4648_round_trips_too() {
    let cfg = Config {
        url_encoding_algorithm: UrlEncodingAlgorithm::Base32(
            AlphabetDef::Rfc4648 { padding: true },
        ),
        host: String::from("0.0.0.0:3069"),
        public_host: String::from("px.test"),
    };
    let encoded = encode_url(&cfg, "https://example.com/a");
    let host = &encoded["https://".len()..encoded.len() - "/a".len()];
    let origin = proxied_origin(&cfg, host).unwrap();
    assert_eq!(origin.host(), "example.com");
}

#[test]
fn rfc4648_alphabet_round_trips_too() {
    let cfg = Config {
        url_encoding_algorithm: UrlEncodingAlgorithm::Base32(
            AlphabetDef::Rfc4648 { padding: false },
        ),
        host: String::from("0.0.0.0:3069"),
        public_host: String::from("px.test"),
    };
    let encoded = encode_url(&cfg, "https://example.com/a");
    let host = &encoded["https://".len()..encoded.len() - "/a".len()];
    let origin = proxied_origin(&cfg, host).unwrap();
    assert_eq!(origin.host(), "example.com");
    assert_eq!(origin.port(), 443);
}
