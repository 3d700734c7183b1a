use weirdproxy::options::{AlphabetNapi, EncoderOptions, ServeConfig};
use weirdproxy::state::{default_padding, AlphabetDef, Config, UrlEncodingAlgorithm};

#[test]
fn padding_defaults_to_off() {
    assert!(!default_padding());
}

#[test]
fn config_default_uses_z_base32_on_changeme_local() {
    let cfg = Config::default();
    assert!(matches!(cfg.url_encoding_algorithm, UrlEncodingAlgorithm::Base32(AlphabetDef::Z)));
    assert_eq!(cfg.host, "0.0.0.0:3069");
    assert_eq!(cfg.public_host, "changeme.local");
}

#[test]
fn set_defaults_fills_missing_fields() {
    let mut sc = ServeConfig { host: None, public_host: None, encoder: None };
    sc.set_defaults();
    assert_eq!(sc.host.as_deref(), Some("0.0.0.0:3069"));
    assert_eq!(sc.public_host.as_deref(), Some("changeme.local"));
    let enc = sc.encoder.unwrap();
    assert!(matches!(enc.alphabet, Some(AlphabetNapi::Z)));
    assert!(enc.key.is_none());
}

#[test]
fn set_defaults_keeps_a_present_key_and_defaults_its_alphabet() {
    let mut sc = ServeConfig {
        host: Some(String::from("127.0.0.1:8000")),
        public_host: Some(String::from("p.example")),
        encoder: Some(EncoderOptions { alphabet: None, key: Some(vec![9, 9]) }),
    };
    sc.set_defaults();
    assert_eq!(sc.host.as_deref(), Some("127.0.0.1:8000"));
    let enc = sc.encoder.unwrap();
    assert!(matches!(enc.alphabet, Some(AlphabetNapi::Z)));
    assert_eq!(enc.key, Some(vec![9, 9]));
}

#[test]
fn into_config_without_key_selects_plain_base32() {
    let sc = ServeConfig {
        host: Some(String::from("0.0.0.0:1")),
        public_host: Some(String::from("p.example")),
        encoder: Some(EncoderOptions { alphabet: Some(AlphabetNapi::Crockford), key: None }),
    };
    let cfg = sc.into_config();
    assert!(matches!(cfg.url_encoding_algorithm, UrlEncodingAlgorithm::Base32(
        AlphabetDef::Crockford
    )));
    assert_eq!(cfg.public_host, "p.example");
}

#[test]
fn into_config_with_key_selects_the_xor_variant() {
    let sc = ServeConfig {
        host: None,
        public_host: None,
        encoder: Some(EncoderOptions { alphabet: Some(AlphabetNapi::Rfc4648), key: Some(vec![7]) }),
    };
    let cfg = sc.into_config();
    match cfg.url_encoding_algorithm {
        UrlEncodingAlgorithm::Base32Xor(AlphabetDef::Rfc4648 { padding }, key) => {
            assert!(!padding);
            assert_eq!(key, vec![7]);
        },
        other => panic!("unexpected algorithm: {:?}", other),
    }
    assert_eq!(cfg.host, "0.0.0.0:3069");
    assert_eq!(cfg.public_host, "changeme.local");
}

#[test]
fn serve_config_default_is_fully_set() {
    let sc = ServeConfig::default();
    assert!(sc.host.is_some());
    assert!(sc.public_host.is_some());
    assert!(sc.encoder.is_some());
}
