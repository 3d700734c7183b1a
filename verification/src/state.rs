//! Configuration shared by every handler: the subdomain encoding algorithm,
//! the listen address, and the public host suffix.

use vstd::prelude::*;
use vstd::string::*;

verus! {

/// A base32 alphabet choice. The RFC 4648 variants carry a padding flag;
/// padding characters are not legal in DNS labels, so it defaults to off.
#[derive(Clone, Copy, PartialEq, Eq, Structural, Debug)]
pub enum AlphabetDef {
    Crockford,
    Rfc4648 { padding: bool },
    Rfc4648Lower { padding: bool },
    Rfc4648Hex { padding: bool },
    Rfc4648HexLower { padding: bool },
    Z,
}

pub fn default_padding() -> (b: bool)
    ensures
        !b,
{
    false
}

/// How an origin is turned into a DNS label: plain base32, or base32 over
/// the origin bytes XOR-masked with a repeating key.
#[derive(Clone, Debug)]
pub enum UrlEncodingAlgorithm {
    Base32(AlphabetDef),
    Base32Xor(AlphabetDef, Vec<u8>),
}

impl UrlEncodingAlgorithm {
    pub open spec fn alphabet_spec(&self) -> AlphabetDef {
        match self {
            UrlEncodingAlgorithm::Base32(a) => *a,
            UrlEncodingAlgorithm::Base32Xor(a, _) => *a,
        }
    }

    /// The masking key, when the algorithm carries one.
    pub open spec fn key_spec(&self) -> Option<Seq<u8>> {
        match self {
            UrlEncodingAlgorithm::Base32(_) => None,
            UrlEncodingAlgorithm::Base32Xor(_, k) => Some(k@),
        }
    }

    pub fn alphabet(&self) -> (a: AlphabetDef)
        ensures
            a == self.alphabet_spec(),
    {
        match self {
            UrlEncodingAlgorithm::Base32(a) => *a,
            UrlEncodingAlgorithm::Base32Xor(a, _) => *a,
        }
    }
}

#[derive(Clone, Debug)]
pub struct Config {
    /// The algorithm that encodes the origin of the proxied host.
    pub url_encoding_algorithm: UrlEncodingAlgorithm,
    /// The listen address for the proxy server, as `ip:port` text.
    pub host: String,
    /// The public root domain that the proxied hosts are served under.
    pub public_host: String,
}

impl Default for Config {
    fn default() -> (c: Config)
        ensures
            c.url_encoding_algorithm == UrlEncodingAlgorithm::Base32(AlphabetDef::Z),
            c.host@ == "0.0.0.0:3069"@,
            c.public_host@ == "changeme.local"@,
    {
        Config {
            url_encoding_algorithm: UrlEncodingAlgorithm::Base32(AlphabetDef::Z),
            host: String::from_str("0.0.0.0:3069"),
            public_host: String::from_str("changeme.local"),
        }
    }
}

/// State handed to the hostname router and the HTML rewriter.
#[derive(Clone, Debug)]
pub struct SharedState {
    pub config: Config,
}

/// State handed to the control API routes.
#[derive(Clone, Debug)]
pub struct APIState {
    pub config: Config,
}

} // verus!
