//! The options surface offered to embedders: a partial configuration whose
//! unset fields take defaults, and its conversion into a `Config`.

use vstd::prelude::*;
use vstd::string::*;
use crate::state::{AlphabetDef, Config, UrlEncodingAlgorithm};

verus! {

/// An alphabet choice as embedders name one; padding is always off here.
#[derive(Clone, Copy, PartialEq, Eq, Structural, Debug)]
pub enum AlphabetNapi {
    Crockford,
    Rfc4648,
    Rfc4648Lower,
    Rfc4648Hex,
    Rfc4648HexLower,
    Z,
}

pub open spec fn alphabet_of_napi(a: AlphabetNapi) -> AlphabetDef {
    match a {
        AlphabetNapi::Crockford => AlphabetDef::Crockford,
        AlphabetNapi::Rfc4648 => AlphabetDef::Rfc4648 { padding: false },
        AlphabetNapi::Rfc4648Lower => AlphabetDef::Rfc4648Lower { padding: false },
        AlphabetNapi::Rfc4648Hex => AlphabetDef::Rfc4648Hex { padding: false },
        AlphabetNapi::Rfc4648HexLower => AlphabetDef::Rfc4648HexLower { padding: false },
        AlphabetNapi::Z => AlphabetDef::Z,
    }
}

fn alphabet_def_of_napi(a: AlphabetNapi) -> (r: AlphabetDef)
    ensures
        r == alphabet_of_napi(a),
{
    match a {
        AlphabetNapi::Crockford => AlphabetDef::Crockford,
        AlphabetNapi::Rfc4648 => AlphabetDef::Rfc4648 { padding: false },
        AlphabetNapi::Rfc4648Lower => AlphabetDef::Rfc4648Lower { padding: false },
        AlphabetNapi::Rfc4648Hex => AlphabetDef::Rfc4648Hex { padding: false },
        AlphabetNapi::Rfc4648HexLower => AlphabetDef::Rfc4648HexLower { padding: false },
        AlphabetNapi::Z => AlphabetDef::Z,
    }
}

#[derive(Clone, Debug)]
pub struct EncoderOptions {
    pub alphabet: Option<AlphabetNapi>,
    pub key: Option<Vec<u8>>,
}

impl Default for EncoderOptions {
    fn default() -> (r: EncoderOptions)
        ensures
            r.alphabet == Some(AlphabetNapi::Z),
            r.key is None,
    {
        EncoderOptions { alphabet: Some(AlphabetNapi::Z), key: None }
    }
}

#[derive(Clone, Debug)]
pub struct ServeConfig {
    pub host: Option<String>,
    pub public_host: Option<String>,
    pub encoder: Option<EncoderOptions>,
}

impl Default for ServeConfig {
    fn default() -> (r: ServeConfig)
        ensures
            (r.host matches Some(h) && h@ == "0.0.0.0:3069"@),
            (r.public_host matches Some(p) && p@ == "changeme.local"@),
            (r.encoder matches Some(e) && e.alphabet == Some(AlphabetNapi::Z) && e.key is None),
    {
        ServeConfig {
            host: Some(String::from_str("0.0.0.0:3069")),
            public_host: Some(String::from_str("changeme.local")),
            encoder: Some(EncoderOptions { alphabet: Some(AlphabetNapi::Z), key: None }),
        }
    }
}

impl ServeConfig {
    /// Fill every unset field with its default. An encoder that is present
    /// keeps its key; only its missing alphabet is defaulted.
    pub fn set_defaults(&mut self)
        ensures
            old(self).host is Some ==> final(self).host == old(self).host,
            old(self).host is None ==> (final(self).host matches Some(h) && h@
                == "0.0.0.0:3069"@),
            old(self).public_host is Some ==> final(self).public_host == old(self).public_host,
            old(self).public_host is None ==> (final(self).public_host matches Some(p) && p@
                == "changeme.local"@),
            match old(self).encoder {
                None => (final(self).encoder matches Some(e) && e.alphabet == Some(
                    AlphabetNapi::Z,
                ) && e.key is None),
                Some(e) => match e.alphabet {
                    None => (final(self).encoder matches Some(f) && f.alphabet == Some(
                        AlphabetNapi::Z,
                    ) && f.key == e.key),
                    Some(_) => final(self).encoder == old(self).encoder,
                },
            },
    {
        if self.host.is_none() {
            self.host = Some(String::from_str("0.0.0.0:3069"));
        }
        if self.public_host.is_none() {
            self.public_host = Some(String::from_str("changeme.local"));
        }
        let defaulted_alphabet = match &self.encoder {
            None => None,
            Some(e) => match e.alphabet {
                None => Some(AlphabetNapi::Z),
                Some(a) => Some(a),
            },
        };
        match defaulted_alphabet {
            None => {
                self.encoder = Some(EncoderOptions { alphabet: Some(AlphabetNapi::Z), key: None });
            },
            Some(a) => {
                match &mut self.encoder {
                    Some(e) => {
                        e.alphabet = Some(a);
                    },
                    None => {},
                }
            },
        }
    }

    /// The alphabet this partial configuration selects, after defaulting.
    pub open spec fn alphabet_choice(self) -> AlphabetNapi {
        match self.encoder {
            None => AlphabetNapi::Z,
            Some(e) => match e.alphabet {
                None => AlphabetNapi::Z,
                Some(a) => a,
            },
        }
    }

    /// The masking key this partial configuration selects, if any.
    pub open spec fn key_choice(self) -> Option<Seq<u8>> {
        match self.encoder {
            None => None,
            Some(e) => match e.key {
                None => None,
                Some(k) => Some(k@),
            },
        }
    }

    /// Turn the partial configuration into a full one, defaulting every
    /// missing field: a present key selects the XOR variant.
    pub fn into_config(self) -> (r: Config)
        ensures
            r.url_encoding_algorithm.alphabet_spec() == alphabet_of_napi(self.alphabet_choice()),
            r.url_encoding_algorithm.key_spec() == self.key_choice(),
            r.host@ == (match self.host {
                Some(h) => h@,
                None => "0.0.0.0:3069"@,
            }),
            r.public_host@ == (match self.public_host {
                Some(p) => p@,
                None => "changeme.local"@,
            }),
    {
        let (alphabet, key) = match self.encoder {
            None => (AlphabetNapi::Z, None),
            Some(e) => (
                match e.alphabet {
                    None => AlphabetNapi::Z,
                    Some(a) => a,
                },
                e.key,
            ),
        };
        let def = alphabet_def_of_napi(alphabet);
        let url_encoding_algorithm = match key {
            None => UrlEncodingAlgorithm::Base32(def),
            Some(k) => UrlEncodingAlgorithm::Base32Xor(def, k),
        };
        let host = match self.host {
            Some(h) => h,
            None => String::from_str("0.0.0.0:3069"),
        };
        let public_host = match self.public_host {
            Some(p) => p,
            None => String::from_str("changeme.local"),
        };
        Config { url_encoding_algorithm, host, public_host }
    }
}

} // verus!
