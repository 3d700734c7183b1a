//! The URL codec: parsing `scheme://host[:port]` origins, encoding an
//! origin into a DNS label under the public host, and decoding a `Host`
//! header back into the proxied origin.

use vstd::prelude::*;
use vstd::string::*;
use vstd::utf8::{valid_utf8, encode_utf8, decode_utf8, encode_scalar};
use crate::error::ProxyError;
use crate::state::{AlphabetDef, Config, UrlEncodingAlgorithm};
use crate::text::{
    contains_char, contains_str, contains_seq, dec_digits, ends_with_seq, ends_with_str,
    find_str, first_match_from, has_char, last_index_of, lemma_first_match_is_min,
    lemma_first_match_none, lemma_first_match_properties, lemma_last_index_none,
    lemma_parse_of_dec_digits, match_at, parse_u16, parse_u16_spec, rfind_char, str_eq,
    trim_one_trailing, trim_one_trailing_char, u16_to_dec,
};

verus! {

broadcast use vstd::utf8::encode_utf8_valid_utf8, vstd::utf8::encode_utf8_decode_utf8;

#[derive(Clone, Copy, PartialEq, Eq, Structural, Debug)]
pub enum Scheme {
    Http,
    Https,
}

pub open spec fn scheme_text(sc: Scheme) -> Seq<char> {
    match sc {
        Scheme::Http => "http"@,
        Scheme::Https => "https"@,
    }
}

/// The port used when the origin text names none: 80 for http, 443 for https.
pub open spec fn default_port(sc: Scheme) -> u16 {
    match sc {
        Scheme::Http => 80u16,
        Scheme::Https => 443u16,
    }
}

/// An upstream server: scheme, host and port. The host never contains `/`
/// or `:`.
#[derive(Clone, Debug)]
pub struct Origin {
    scheme: Scheme,
    host: String,
    port: u16,
}

impl Origin {
    /// The origin invariant: the host is non-empty and free of `/` and `:`.
    pub open spec fn wf(&self) -> bool {
        &&& self.host_spec().len() > 0
        &&& !has_char(self.host_spec(), '/')
        &&& !has_char(self.host_spec(), ':')
    }

    pub closed spec fn scheme_spec(&self) -> Scheme {
        self.scheme
    }

    pub closed spec fn host_spec(&self) -> Seq<char> {
        self.host@
    }

    pub closed spec fn port_spec(&self) -> u16 {
        self.port
    }

    pub fn scheme(&self) -> (r: Scheme)
        ensures
            r == self.scheme_spec(),
    {
        self.scheme
    }

    pub fn host(&self) -> (r: &str)
        ensures
            r@ == self.host_spec(),
    {
        self.host.as_str()
    }

    pub fn port(&self) -> (r: u16)
        ensures
            r == self.port_spec(),
    {
        self.port
    }

    /// The URL prefix used to reach this origin, with the port always
    /// written out: `scheme://host:port`.
    pub fn to_url_string(&self) -> (r: String)
        ensures
            r@ == origin_url_text(self.scheme_spec(), self.host_spec(), self.port_spec()),
    {
        proof {
            reveal_strlit("http");
            reveal_strlit("https");
            reveal_strlit("http://");
            reveal_strlit("https://");
            reveal_strlit("://");
            reveal_strlit(":");
        }
        let mut s = match self.scheme {
            Scheme::Http => String::from_str("http://"),
            Scheme::Https => String::from_str("https://"),
        };
        proof {
            assert(s@ =~= scheme_text(self.scheme) + "://"@);
        }
        s.append(self.host.as_str());
        s.append(":");
        let d = u16_to_dec(self.port);
        s.append(d.as_str());
        proof {
            assert(s@ =~= origin_url_text(self.scheme_spec(), self.host_spec(), self.port_spec()));
        }
        s
    }
}

impl PartialEq for Origin {
    fn eq(&self, other: &Origin) -> bool {
        self.scheme == other.scheme && self.host == other.host && self.port == other.port
    }
}

impl vstd::std_specs::cmp::PartialEqSpecImpl for Origin {
    open spec fn obeys_eq_spec() -> bool {
        true
    }

    open spec fn eq_spec(&self, other: &Origin) -> bool {
        self.scheme_spec() == other.scheme_spec() && self.host_spec() == other.host_spec()
            && self.port_spec() == other.port_spec()
    }
}

pub open spec fn origin_url_text(sc: Scheme, host: Seq<char>, port: u16) -> Seq<char> {
    scheme_text(sc) + "://"@ + host + ":"@ + dec_digits(port as int)
}

// --- origin parsing ---

pub open spec fn host_port_check(sc: Scheme, host: Seq<char>, port: Option<u16>) -> Option<
    (Scheme, Seq<char>, u16),
> {
    if host.len() == 0 || has_char(host, '/') || has_char(host, ':') {
        None
    } else {
        match port {
            None => None,
            Some(p) => Some((sc, host, p)),
        }
    }
}

pub open spec fn parse_after_scheme(sc: Scheme, rest: Seq<char>) -> Option<
    (Scheme, Seq<char>, u16),
> {
    match first_match_from(rest, ":"@, 0) {
        None => host_port_check(sc, rest, Some(default_port(sc))),
        Some(j) => host_port_check(
            sc,
            rest.subrange(0, j),
            parse_u16_spec(rest.subrange(j + 1, rest.len() as int)),
        ),
    }
}

/// What `parse_origin` accepts: split once on the first `://`, take `http`
/// or `https`, split the remainder once on the first `:`, require a
/// non-empty host free of `/` and `:`, and read the port or default it by
/// scheme.
pub open spec fn parse_origin_spec(s: Seq<char>) -> Option<(Scheme, Seq<char>, u16)> {
    if s.len() == 0 {
        None
    } else {
        match first_match_from(s, "://"@, 0) {
            None => None,
            Some(i) => {
                let rest = s.subrange(i + 3, s.len() as int);
                if s.subrange(0, i) == "http"@ {
                    parse_after_scheme(Scheme::Http, rest)
                } else if s.subrange(0, i) == "https"@ {
                    parse_after_scheme(Scheme::Https, rest)
                } else {
                    None
                }
            },
        }
    }
}

pub fn parse_origin(origin: &str) -> (r: Result<Origin, ProxyError>)
    ensures
        match r {
            Ok(o) => o.wf() && parse_origin_spec(origin@) == Some(
                (o.scheme_spec(), o.host_spec(), o.port_spec()),
            ),
            Err(e) => parse_origin_spec(origin@) is None && e == ProxyError::InvalidOrigin,
        },
{
    proof {
        reveal_strlit("://");
        reveal_strlit(":");
    }
    let n = origin.unicode_len();
    if n == 0 {
        return Err(ProxyError::InvalidOrigin);
    }
    let i = match find_str(origin, "://") {
        None => {
            return Err(ProxyError::InvalidOrigin);
        },
        Some(i) => i,
    };
    proof {
        lemma_first_match_properties(origin@, "://"@, 0);
    }
    let scheme_part = origin.substring_char(0, i);
    let sc = if str_eq(scheme_part, "http") {
        Scheme::Http
    } else if str_eq(scheme_part, "https") {
        Scheme::Https
    } else {
        return Err(ProxyError::InvalidOrigin);
    };
    let rest = origin.substring_char(i + 3, n);
    let ghost rest_v = origin@.subrange(i + 3, n as int);
    let rn = rest.unicode_len();
    let (host_s, port) = match find_str(rest, ":") {
        None => {
            let p = match sc {
                Scheme::Http => 80u16,
                Scheme::Https => 443u16,
            };
            (rest, p)
        },
        Some(j) => {
            proof {
                lemma_first_match_properties(rest_v, ":"@, 0);
            }
            let host_part = rest.substring_char(0, j);
            let port_part = rest.substring_char(j + 1, rn);
            match parse_u16(port_part) {
                None => {
                    return Err(ProxyError::InvalidOrigin);
                },
                Some(p) => (host_part, p),
            }
        },
    };
    if host_s.unicode_len() == 0 || contains_char(host_s, '/') || contains_char(host_s, ':') {
        return Err(ProxyError::InvalidOrigin);
    }
    Ok(Origin { scheme: sc, host: String::from_str(host_s), port })
}

// --- XOR masking ---

/// Each byte XOR-ed with the repeating key; a zip against an empty
/// repeating key yields nothing, so an empty key gives an empty result.
pub open spec fn mask_bytes(key: Seq<u8>, data: Seq<u8>) -> Seq<u8> {
    if key.len() == 0 {
        Seq::empty()
    } else {
        Seq::new(data.len(), |i: int| data[i] ^ key[i % key.len() as int])
    }
}

pub fn mask_with_key(key: &Vec<u8>, data: &Vec<u8>) -> (r: Vec<u8>)
    ensures
        r@ == mask_bytes(key@, data@),
{
    let mut out: Vec<u8> = Vec::new();
    if key.len() == 0 {
        proof {
            assert(out@ =~= mask_bytes(key@, data@));
        }
        return out;
    }
    let mut i: usize = 0;
    while i < data.len()
        invariant
            0 < key.len(),
            0 <= i <= data.len(),
            out@.len() == i,
            forall|l: int| 0 <= l < i ==> out@[l] == (data@[l] ^ key@[l % key@.len() as int]),
        decreases data.len() - i,
    {
        out.push(data[i] ^ key[i % key.len()]);
        i = i + 1;
    }
    proof {
        assert(out@ =~= mask_bytes(key@, data@));
    }
    out
}

/// Masking twice with the same non-empty key restores the data.
pub proof fn lemma_mask_involutive(key: Seq<u8>, data: Seq<u8>)
    requires
        key.len() > 0,
    ensures
        mask_bytes(key, mask_bytes(key, data)) == data,
{
    assert(forall|a: u8, b: u8| ((a ^ b) ^ b) == a) by (bit_vector);
    assert(mask_bytes(key, mask_bytes(key, data)) =~= data);
}

/// The key byte that masks position `i` of the payload is zero.
pub open spec fn key_zero_at(key: Seq<u8>, i: int) -> bool {
    key[i % key.len() as int] == 0
}

/// Labels under the XOR variant and the plain variant of one alphabet are
/// equal exactly when every used byte of the key is zero. Equal labels
/// decode alike, and decoding returns each label's payload — the facts
/// `encode_url` states for every label it builds — so label equality
/// reduces to payload equality, which the XOR layer settles.
pub proof fn lemma_xor_label_differs(a: AlphabetDef, key: Seq<u8>, data: Seq<u8>)
    requires
        key.len() > 0,
        base32_dec(a, base32_enc(a, data)) == Some(data),
        base32_dec(a, base32_enc(a, mask_bytes(key, data))) == Some(mask_bytes(key, data)),
    ensures
        (base32_enc(a, mask_bytes(key, data)) == base32_enc(a, data)) <==> (forall|i: int|
            0 <= i < data.len() ==> #[trigger] key_zero_at(key, i)),
{
    if base32_enc(a, mask_bytes(key, data)) == base32_enc(a, data) {
        assert(mask_bytes(key, data) == data);
    }
    lemma_mask_changes_payload(key, data, a);
}

/// The XOR layer of the codec changes the payload exactly when some used
/// position of the repeating key is non-zero; on an unchanged payload the
/// encoded label is unchanged too.
pub proof fn lemma_mask_changes_payload(key: Seq<u8>, data: Seq<u8>, a: AlphabetDef)
    requires
        key.len() > 0,
    ensures
        (mask_bytes(key, data) == data) <==> (forall|i: int|
            0 <= i < data.len() ==> #[trigger] key_zero_at(key, i)),
        mask_bytes(key, data) == data ==> base32_enc(a, mask_bytes(key, data)) == base32_enc(
            a,
            data,
        ),
{
    assert(forall|x: u8| (x ^ 0) == x) by (bit_vector);
    assert(forall|x: u8, b: u8| (x ^ b) == x ==> b == 0) by (bit_vector);
    if forall|i: int| 0 <= i < data.len() ==> #[trigger] key_zero_at(key, i) {
        assert forall|i: int| 0 <= i < data.len() implies mask_bytes(key, data)[i] == data[i] by {
            assert(key_zero_at(key, i));
            let d = data[i];
            assert((d ^ 0) == d) by (bit_vector);
        }
        assert(mask_bytes(key, data) =~= data);
    }
    if mask_bytes(key, data) == data {
        assert forall|i: int| 0 <= i < data.len() implies #[trigger] key_zero_at(key, i) by {
            assert(mask_bytes(key, data)[i] == (data[i] ^ key[i % key.len() as int]));
        }
    }
}

// --- trusted view of the base32 crate ---

/// An ASCII digit or letter.
pub open spec fn is_ascii_alnum(c: char) -> bool {
    ||| 48 <= c as u32 <= 57
    ||| 65 <= c as u32 <= 90
    ||| 97 <= c as u32 <= 122
}

/// Whether an alphabet pads its output to full eight-character groups.
pub open spec fn alphabet_pads(a: AlphabetDef) -> bool {
    match a {
        AlphabetDef::Crockford => false,
        AlphabetDef::Rfc4648 { padding } => padding,
        AlphabetDef::Rfc4648Lower { padding } => padding,
        AlphabetDef::Rfc4648Hex { padding } => padding,
        AlphabetDef::Rfc4648HexLower { padding } => padding,
        AlphabetDef::Z => false,
    }
}

pub uninterp spec fn base32_enc(a: AlphabetDef, data: Seq<u8>) -> Seq<char>;

pub uninterp spec fn base32_dec(a: AlphabetDef, label: Seq<char>) -> Option<Seq<u8>>;

/// Relies on base32::encode: the label is a function of the alphabet and the
/// bytes alone; base32::decode with the same alphabet recovers exactly the
/// bytes that were encoded; every output character comes from the alphabet's
/// table of ASCII digits and letters, except for `=` padding, which appears
/// only under a padding alphabet; the output holds one character per five
/// input bits, rounded up, or a full eight characters per started five-byte
/// group under padding.
#[verifier::external_body]
fn base32_encode(a: &AlphabetDef, data: &Vec<u8>) -> (r: String)
    ensures
        r@ == base32_enc(*a, data@),
        base32_dec(*a, r@) == Some(data@),
        forall|i: int| 0 <= i < r@.len() ==> is_ascii_alnum(#[trigger] r@[i]) || (alphabet_pads(
            *a,
        ) && r@[i] == '='),
        r@.len() == (if alphabet_pads(*a) {
            ((data@.len() + 4) / 5) * 8
        } else {
            (data@.len() * 8 + 4) / 5
        }),
{
    let alpha = match a {
        AlphabetDef::Crockford => base32::Alphabet::Crockford,
        AlphabetDef::Rfc4648 { padding } => base32::Alphabet::Rfc4648 { padding: *padding },
        AlphabetDef::Rfc4648Lower { padding } => base32::Alphabet::Rfc4648Lower {
            padding: *padding,
        },
        AlphabetDef::Rfc4648Hex { padding } => base32::Alphabet::Rfc4648Hex { padding: *padding },
        AlphabetDef::Rfc4648HexLower { padding } => base32::Alphabet::Rfc4648HexLower {
            padding: *padding,
        },
        AlphabetDef::Z => base32::Alphabet::Z,
    };
    base32::encode(alpha, data.as_slice())
}

/// Relies on base32::decode: the result is a function of the alphabet and
/// the label text alone.
#[verifier::external_body]
fn base32_decode(a: &AlphabetDef, label: &str) -> (r: Option<Vec<u8>>)
    ensures
        match r {
            Some(v) => base32_dec(*a, label@) == Some(v@),
            None => base32_dec(*a, label@) is None,
        },
{
    let alpha = match a {
        AlphabetDef::Crockford => base32::Alphabet::Crockford,
        AlphabetDef::Rfc4648 { padding } => base32::Alphabet::Rfc4648 { padding: *padding },
        AlphabetDef::Rfc4648Lower { padding } => base32::Alphabet::Rfc4648Lower {
            padding: *padding,
        },
        AlphabetDef::Rfc4648Hex { padding } => base32::Alphabet::Rfc4648Hex { padding: *padding },
        AlphabetDef::Rfc4648HexLower { padding } => base32::Alphabet::Rfc4648HexLower {
            padding: *padding,
        },
        AlphabetDef::Z => base32::Alphabet::Z,
    };
    base32::decode(alpha, label)
}

// --- trusted view of hyper's URI parser and std's UTF-8 decoding ---

/// The pieces of an absolute URI that the encoder reads.
pub struct UriParts {
    pub scheme: String,
    pub host: String,
    pub port: Option<u16>,
    pub path: String,
}

pub uninterp spec fn uri_acceptable(url: Seq<char>) -> bool;

pub uninterp spec fn uri_scheme(url: Seq<char>) -> Seq<char>;

pub uninterp spec fn uri_host(url: Seq<char>) -> Seq<char>;

pub uninterp spec fn uri_port(url: Seq<char>) -> Option<u16>;

pub uninterp spec fn uri_path(url: Seq<char>) -> Seq<char>;

/// Relies on hyper::Uri (http's URI type): parsing is a function of the
/// text alone. `uri_acceptable` holds when `Uri::from_str` succeeds on the
/// text and the parsed URI carries both a scheme and an authority; the other
/// names stand for `Uri::scheme_str`, `Authority::host`,
/// `Authority::port_u16` and `Uri::path` on the parsed value.
#[verifier::external_body]
fn parse_absolute_uri(url: &str) -> (r: Option<UriParts>)
    ensures
        r is Some <==> uri_acceptable(url@),
        r matches Some(p) ==> p.scheme@ == uri_scheme(url@) && p.host@ == uri_host(url@)
            && p.port == uri_port(url@) && p.path@ == uri_path(url@),
{
    let uri = match url.parse::<hyper::Uri>() {
        Ok(u) => u,
        Err(_) => return None,
    };
    let scheme = match uri.scheme_str() {
        Some(s) => s.to_string(),
        None => return None,
    };
    let auth = match uri.authority() {
        Some(a) => a,
        None => return None,
    };
    let host = auth.host().to_string();
    let port = auth.port_u16();
    Some(UriParts { scheme, host, port, path: uri.path().to_string() })
}

/// Relies on String::from_utf8: it succeeds exactly on valid UTF-8 input
/// and returns the string those bytes encode.
#[verifier::external_body]
pub(crate) fn string_from_utf8(v: Vec<u8>) -> (r: Option<String>)
    ensures
        r matches Some(s) ==> valid_utf8(v@) && encode_utf8(s@) == v@,
        r is None ==> !valid_utf8(v@),
{
    match String::from_utf8(v) {
        Ok(s) => Some(s),
        Err(_) => None,
    }
}

// --- decoding a Host header back to the proxied origin ---

/// The host text with everything from its last `:` on removed.
pub open spec fn strip_port_text(h: Seq<char>) -> Seq<char> {
    match last_index_of(h, ':') {
        None => h,
        Some(i) => h.subrange(0, i),
    }
}

/// What `proxied_origin` returns for a `Host` header: strip a port suffix,
/// require the public host as a suffix, trim a single trailing dot off the
/// label, base32-decode it, undo the XOR mask, and parse the origin text. A
/// header that names the public host itself carries no subdomain at all and
/// is `InvalidHost`; a label of dots only flows into decoding and fails
/// there.
pub open spec fn decode_host_spec(cfg: Config, h: Seq<char>) -> Result<
    (Scheme, Seq<char>, u16),
    ProxyError,
> {
    let h1 = strip_port_text(h);
    if !ends_with_seq(h1, cfg.public_host@) {
        Err(ProxyError::InvalidHost)
    } else {
        let rem = h1.subrange(0, h1.len() - cfg.public_host@.len());
        if rem.len() == 0 {
            Err(ProxyError::InvalidHost)
        } else {
            let label = trim_one_trailing(rem, '.');
            match base32_dec(cfg.url_encoding_algorithm.alphabet_spec(), label) {
                None => Err(ProxyError::DecodeError),
                Some(bytes) => {
                    let raw = match cfg.url_encoding_algorithm.key_spec() {
                        None => bytes,
                        Some(k) => mask_bytes(k, bytes),
                    };
                    if !valid_utf8(raw) {
                        Err(ProxyError::InvalidOrigin)
                    } else {
                        match parse_origin_spec(decode_utf8(raw)) {
                            None => Err(ProxyError::InvalidOrigin),
                            Some(t) => Ok(t),
                        }
                    }
                },
            }
        }
    }
}

/// Decode the origin that a `Host` header addresses.
pub fn proxied_origin(config: &Config, origin: &str) -> (r: Result<Origin, ProxyError>)
    ensures
        match r {
            Ok(o) => o.wf() && decode_host_spec(*config, origin@) == Ok::<_, ProxyError>(
                (o.scheme_spec(), o.host_spec(), o.port_spec()),
            ),
            Err(e) => decode_host_spec(*config, origin@) == Err::<(Scheme, Seq<char>, u16), _>(e),
        },
{
    let h1: &str = match rfind_char(origin, ':') {
        None => origin,
        Some(i) => origin.substring_char(0, i),
    };
    if !ends_with_str(h1, config.public_host.as_str()) {
        return Err(ProxyError::InvalidHost);
    }
    let n1 = h1.unicode_len();
    let m = config.public_host.as_str().unicode_len();
    let rem = h1.substring_char(0, n1 - m);
    if rem.unicode_len() == 0 {
        return Err(ProxyError::InvalidHost);
    }
    let label = trim_one_trailing_char(rem, '.');
    let alpha = config.url_encoding_algorithm.alphabet();
    let bytes = match base32_decode(&alpha, label) {
        None => {
            return Err(ProxyError::DecodeError);
        },
        Some(b) => b,
    };
    let raw = match &config.url_encoding_algorithm {
        UrlEncodingAlgorithm::Base32(_) => bytes,
        UrlEncodingAlgorithm::Base32Xor(_, k) => mask_with_key(k, &bytes),
    };
    let ghost raw_v = raw@;
    let s = match string_from_utf8(raw) {
        None => {
            return Err(ProxyError::InvalidOrigin);
        },
        Some(s) => s,
    };
    proof {
        assert(decode_utf8(raw_v) == s@);
    }
    match parse_origin(s.as_str()) {
        Ok(o) => Ok(o),
        Err(_) => Err(ProxyError::InvalidOrigin),
    }
}

// --- encoding a URL into a proxied URL ---

pub open spec fn port_suffix(p: Option<u16>) -> Seq<char> {
    match p {
        None => Seq::empty(),
        Some(p) => ":"@ + dec_digits(p as int),
    }
}

/// The origin text the encoder builds from a parsed URL: the port appears
/// exactly when the URL named one.
pub open spec fn origin_text_of_uri(url: Seq<char>) -> Seq<char> {
    uri_scheme(url) + "://"@ + uri_host(url) + port_suffix(uri_port(url))
}

pub open spec fn masked_payload(alg: UrlEncodingAlgorithm, data: Seq<u8>) -> Seq<u8> {
    match alg.key_spec() {
        None => data,
        Some(k) => mask_bytes(k, data),
    }
}

/// The DNS label that stands for an origin text under the configured
/// algorithm.
pub open spec fn encoded_label(alg: UrlEncodingAlgorithm, origin: Seq<char>) -> Seq<char> {
    base32_enc(alg.alphabet_spec(), masked_payload(alg, encode_utf8(origin)))
}

/// What `encode_url` returns: text without `://`, and text hyper's URI
/// parser does not accept as an absolute URI, come back unchanged; anything
/// else becomes `https://<label>.<public host><path>`. Query and fragment
/// are dropped here; the forwarding engine carries them separately.
pub open spec fn encode_url_spec(cfg: Config, url: Seq<char>) -> Seq<char> {
    if !contains_seq(url, "://"@) {
        url
    } else if !uri_acceptable(url) {
        url
    } else {
        "https://"@ + encoded_label(cfg.url_encoding_algorithm, origin_text_of_uri(url)) + "."@
            + cfg.public_host@ + uri_path(url)
    }
}

/// A configuration whose encoded hosts decode again: no `:` inside the
/// public host, and a non-empty key when the XOR variant is in use.
pub open spec fn round_trip_config(cfg: Config) -> bool {
    &&& !has_char(cfg.public_host@, ':')
    &&& match cfg.url_encoding_algorithm.key_spec() {
        None => true,
        Some(k) => k.len() > 0,
    }
}

/// A URL whose origin survives the round trip: absolute, scheme http or
/// https, and a host that an origin text can carry.
pub open spec fn round_trip_url(url: Seq<char>) -> bool {
    &&& contains_seq(url, "://"@)
    &&& uri_acceptable(url)
    &&& (uri_scheme(url) == "http"@ || uri_scheme(url) == "https"@)
    &&& uri_host(url).len() > 0
    &&& !has_char(uri_host(url), '/')
    &&& !has_char(uri_host(url), ':')
}

pub open spec fn uri_scheme_value(url: Seq<char>) -> Scheme {
    if uri_scheme(url) == "http"@ {
        Scheme::Http
    } else {
        Scheme::Https
    }
}

pub open spec fn uri_port_value(url: Seq<char>) -> u16 {
    match uri_port(url) {
        Some(p) => p,
        None => default_port(uri_scheme_value(url)),
    }
}

proof fn lemma_encode_utf8_nonempty(chars: Seq<char>)
    requires
        chars.len() > 0,
    ensures
        encode_utf8(chars).len() > 0,
{
    assert(encode_utf8(chars) == encode_scalar(chars[0] as u32) + encode_utf8(
        chars.drop_first(),
    ));
    assert(encode_scalar(chars[0] as u32).len() > 0);
}

/// Parsing the exact text `scheme://host[:port]` yields that scheme, host
/// and port, with the port defaulted by scheme when absent.
pub proof fn lemma_parse_origin_of_built(sc: Scheme, host: Seq<char>, port: Option<u16>)
    requires
        host.len() > 0,
        !has_char(host, '/'),
        !has_char(host, ':'),
    ensures
        parse_origin_spec(scheme_text(sc) + "://"@ + host + port_suffix(port)) == Some(
            (
                sc,
                host,
                match port {
                    Some(p) => p,
                    None => default_port(sc),
                },
            ),
        ),
{
    reveal_strlit("http");
    reveal_strlit("https");
    reveal_strlit("://");
    reveal_strlit(":");
    let s = scheme_text(sc) + "://"@ + host + port_suffix(port);
    let k = scheme_text(sc).len() as int;
    assert(s.subrange(0, k) =~= scheme_text(sc));
    assert(s.subrange(k, k + 3) =~= "://"@);
    assert(match_at(s, "://"@, k));
    assert forall|j: int| 0 <= j < k implies !match_at(s, "://"@, j) by {
        if match_at(s, "://"@, j) {
            assert(s.subrange(j, j + 3)[0] == s[j]);
            assert(s.subrange(0, k)[j] == s[j]);
        }
    }
    lemma_first_match_is_min(s, "://"@, 0, k);
    let rest = s.subrange(k + 3, s.len() as int);
    assert(rest =~= host + port_suffix(port));
    match port {
        None => {
            assert(rest =~= host);
            assert forall|j: int| 0 <= j implies !match_at(rest, ":"@, j) by {
                if match_at(rest, ":"@, j) {
                    assert(rest.subrange(j, j + 1)[0] == rest[j]);
                }
            }
            lemma_first_match_none(rest, ":"@, 0);
            assert(parse_after_scheme(sc, rest) == Some((sc, host, default_port(sc))));
        },
        Some(p) => {
            let hl = host.len() as int;
            assert(rest.subrange(hl, hl + 1) =~= ":"@);
            assert(match_at(rest, ":"@, hl));
            assert forall|j: int| 0 <= j < hl implies !match_at(rest, ":"@, j) by {
                if match_at(rest, ":"@, j) {
                    assert(rest.subrange(j, j + 1)[0] == rest[j]);
                    assert(rest[j] == host[j]);
                }
            }
            lemma_first_match_is_min(rest, ":"@, 0, hl);
            assert(rest.subrange(0, hl) =~= host);
            assert(rest.subrange(hl + 1, rest.len() as int) =~= dec_digits(p as int));
            lemma_parse_of_dec_digits(p);
            assert(parse_after_scheme(sc, rest) == Some((sc, host, p)));
        },
    }
    if sc == Scheme::Https {
        assert(s.subrange(0, k).len() == 5);
        assert(s.subrange(0, k) != "http"@);
    }
}

/// On text without a `://` marker — every relative link — `encode_url`
/// is the identity, so applying the attribute rewrite again changes
/// nothing. An absolute URL, including an already proxied one, is encoded
/// anew each time.
pub proof fn lemma_encode_url_idempotent_on_relative(cfg: Config, url: Seq<char>)
    requires
        !contains_seq(url, "://"@),
    ensures
        encode_url_spec(cfg, encode_url_spec(cfg, url)) == encode_url_spec(cfg, url),
{
}

/// Encode an absolute URL into its proxied form,
/// `https://<label>.<public host><path>`. Malformed input comes back
/// unchanged; under a padding-free alphabet the label holds only ASCII
/// digits and letters, so it is DNS-label-legal; and an encoded host
/// decodes back to the URL's origin.
pub fn encode_url(config: &Config, url: &str) -> (r: String)
    ensures
        r@ == encode_url_spec(*config, url@),
        !contains_seq(url@, "://"@) ==> r@ == url@,
        !uri_acceptable(url@) ==> r@ == url@,
        (contains_seq(url@, "://"@) && uri_acceptable(url@)) ==> base32_dec(
            config.url_encoding_algorithm.alphabet_spec(),
            encoded_label(config.url_encoding_algorithm, origin_text_of_uri(url@)),
        ) == Some(
            masked_payload(config.url_encoding_algorithm, encode_utf8(origin_text_of_uri(url@))),
        ),
        (contains_seq(url@, "://"@) && uri_acceptable(url@) && !alphabet_pads(
            config.url_encoding_algorithm.alphabet_spec(),
        )) ==> (forall|i: int|
            0 <= i < encoded_label(config.url_encoding_algorithm, origin_text_of_uri(url@)).len()
                ==> is_ascii_alnum(
                #[trigger] encoded_label(config.url_encoding_algorithm, origin_text_of_uri(url@))[i],
            )),
        round_trip_config(*config) && round_trip_url(url@) ==> decode_host_spec(
            *config,
            encoded_label(config.url_encoding_algorithm, origin_text_of_uri(url@)) + "."@
                + config.public_host@,
        ) == Ok::<_, ProxyError>(
            (uri_scheme_value(url@), uri_host(url@), uri_port_value(url@)),
        ),
{
    if !contains_str(url, "://") {
        return String::from_str(url);
    }
    let parts = match parse_absolute_uri(url) {
        None => {
            return String::from_str(url);
        },
        Some(p) => p,
    };
    let mut origin = parts.scheme;
    origin.append("://");
    origin.append(parts.host.as_str());
    match parts.port {
        Some(p) => {
            origin.append(":");
            let d = u16_to_dec(p);
            origin.append(d.as_str());
        },
        None => {},
    }
    proof {
        assert(origin@ =~= origin_text_of_uri(url@));
    }
    let origin_bytes = origin.as_str().as_bytes_vec();
    let ghost ob = origin_bytes@;
    let payload = match &config.url_encoding_algorithm {
        UrlEncodingAlgorithm::Base32(_) => origin_bytes,
        UrlEncodingAlgorithm::Base32Xor(_, k) => mask_with_key(k, &origin_bytes),
    };
    let ghost payload_v = payload@;
    let alpha = config.url_encoding_algorithm.alphabet();
    let label = base32_encode(&alpha, &payload);
    let mut out = String::from_str("https://");
    out.append(label.as_str());
    out.append(".");
    out.append(config.public_host.as_str());
    out.append(parts.path.as_str());
    proof {
        assert(out@ =~= encode_url_spec(*config, url@));
        let alg = config.url_encoding_algorithm;
        let ot = origin_text_of_uri(url@);
        let lab = label@;
        assert(lab == encoded_label(alg, ot));
        if !alphabet_pads(alg.alphabet_spec()) {
            assert forall|i: int| 0 <= i < encoded_label(alg, ot).len() implies is_ascii_alnum(
                encoded_label(alg, ot)[i],
            ) by {
                assert(encoded_label(alg, ot)[i] == lab[i]);
            }
        }
        if round_trip_config(*config) && round_trip_url(url@) {
            let ph = config.public_host@;
            let hostname = lab + "."@ + ph;
            reveal_strlit(".");
            reveal_strlit("://");
            assert(ot.len() > 0);
            lemma_encode_utf8_nonempty(ot);
            assert(payload_v.len() > 0);
            assert(lab.len() > 0);
            assert forall|i: int| 0 <= i < hostname.len() implies hostname[i] != ':' by {
                if i < lab.len() {
                    assert(hostname[i] == lab[i]);
                    assert(is_ascii_alnum(lab[i]) || lab[i] == '=');
                    assert(':' as u32 == 58);
                } else if i == lab.len() {
                    assert(hostname[i] == "."@[0]);
                } else {
                    assert(hostname[i] == ph[i - lab.len() - 1]);
                }
            }
            lemma_last_index_none(hostname, ':');
            assert(strip_port_text(hostname) == hostname);
            assert(hostname.subrange(hostname.len() - ph.len(), hostname.len() as int) =~= ph);
            assert(ends_with_seq(hostname, ph));
            assert(hostname.subrange(0, hostname.len() - ph.len()) =~= lab + "."@);
            assert((lab + "."@)[lab.len() as int] == '.');
            assert((lab + "."@).drop_last() =~= lab);
            assert(trim_one_trailing(lab + "."@, '.') == lab);
            match alg.key_spec() {
                None => {},
                Some(k) => {
                    lemma_mask_involutive(k, ob);
                },
            }
            assert(decode_utf8(ob) == ot);
            lemma_parse_origin_of_built(uri_scheme_value(url@), uri_host(url@), uri_port(url@));
            assert(ot == scheme_text(uri_scheme_value(url@)) + "://"@ + uri_host(url@)
                + port_suffix(uri_port(url@)));
            assert(decode_host_spec(*config, hostname) == Ok::<_, ProxyError>(
                (uri_scheme_value(url@), uri_host(url@), uri_port_value(url@)),
            ));
        }
    }
    out
}

} // verus!
