//! Streaming HTML rewriting: every `href`, `src` and `poster` attribute is
//! passed through `encode_url`, and the client patch script becomes the
//! first child of `<head>`. The traversal itself is lol_html's, in two
//! passes — attribute encoding, then head injection; the values written are
//! verified code.

use vstd::prelude::*;
use vstd::string::*;
use vstd::utf8::encode_utf8;
use std::borrow::Cow;
use lol_html::html_content::ContentType::Html;
use lol_html::html_content::Element;
use lol_html::{ElementContentHandlers, Selector, Settings};
use lol_html::HtmlRewriter as LolRewriter;
use crate::codec::{encode_url, encode_url_spec};
use crate::error::ProxyError;
use crate::state::{AlphabetDef, Config, SharedState};

verus! {

/// A body rewriter, as the proxy's handlers see one.
pub trait Rewriter {
    fn rewrite(&self, input: Vec<u8>) -> Result<Vec<u8>, ProxyError>;
}

pub open spec fn patch_script_text() -> Seq<char> {
    "<script type=\"text/javascript\">(function(){console.log(\"patched by the proxy\");})();</script>"@
}

/// The script tag injected into every `<head>`.
pub fn head_script_tag() -> (r: String)
    ensures
        r@ == patch_script_text(),
{
    String::from_str(
        "<script type=\"text/javascript\">(function(){console.log(\"patched by the proxy\");})();</script>",
    )
}

pub open spec fn error_page_text() -> Seq<char> {
    "<html><body><h1>Error rewriting HTML</h1></body></html>"@
}

/// The body substituted for a response whose HTML rewrite failed.
pub fn rewrite_error_page() -> (r: Vec<u8>)
    ensures
        r@ == encode_utf8(error_page_text()),
{
    "<html><body><h1>Error rewriting HTML</h1></body></html>".as_bytes_vec()
}

pub open spec fn view_str_pairs(ps: Seq<(String, String)>) -> Seq<(Seq<char>, Seq<char>)> {
    ps.map_values(|p: (String, String)| (p.0@, p.1@))
}

/// The attribute write that one optional attribute value gives rise to.
pub open spec fn attr_pair(cfg: Config, name: Seq<char>, value: Option<String>) -> Seq<
    (Seq<char>, Seq<char>),
> {
    match value {
        Some(v) => seq![(name, encode_url_spec(cfg, v@))],
        None => Seq::empty(),
    }
}

/// The per-element rewriting policy: each present link-bearing attribute is
/// replaced with its `encode_url` form, in the order href, src, poster.
pub fn attr_rewrites(
    config: &Config,
    href: Option<String>,
    src: Option<String>,
    poster: Option<String>,
) -> (r: Vec<(String, String)>)
    ensures
        view_str_pairs(r@) == attr_pair(*config, "href"@, href) + attr_pair(*config, "src"@, src)
            + attr_pair(*config, "poster"@, poster),
{
    let mut out: Vec<(String, String)> = Vec::new();
    match href {
        Some(v) => {
            out.push((String::from_str("href"), encode_url(config, v.as_str())));
        },
        None => {},
    }
    match src {
        Some(v) => {
            out.push((String::from_str("src"), encode_url(config, v.as_str())));
        },
        None => {},
    }
    match poster {
        Some(v) => {
            out.push((String::from_str("poster"), encode_url(config, v.as_str())));
        },
        None => {},
    }
    proof {
        assert(view_str_pairs(out@) =~= attr_pair(*config, "href"@, href) + attr_pair(
            *config,
            "src"@,
            src,
        ) + attr_pair(*config, "poster"@, poster));
    }
    out
}

/// A document with every link-bearing attribute encoded, as a function of
/// the encoding configuration and the input; `None` when the rewriter fails
/// on that input.
pub uninterp spec fn attrs_rewritten(
    alphabet: AlphabetDef,
    key: Option<Seq<u8>>,
    public_host: Seq<char>,
    input: Seq<u8>,
) -> Option<Seq<u8>>;

/// A document with the patch script made the first child of `<head>`;
/// `None` when the rewriter fails on that input.
pub uninterp spec fn head_injected(input: Seq<u8>) -> Option<Seq<u8>>;

/// Relies on lol_html::HtmlRewriter: the pass writes `attr_rewrites` values
/// into every element and is deterministic in the configuration — which
/// fixes what those values are — and the input bytes.
#[verifier::external_body]
fn run_attr_rewriter(config: &Config, input: &Vec<u8>) -> (r: Option<Vec<u8>>)
    ensures
        match r {
            Some(v) => attrs_rewritten(
                config.url_encoding_algorithm.alphabet_spec(),
                config.url_encoding_algorithm.key_spec(),
                config.public_host@,
                input@,
            ) == Some(v@),
            None => attrs_rewritten(
                config.url_encoding_algorithm.alphabet_spec(),
                config.url_encoding_algorithm.key_spec(),
                config.public_host@,
                input@,
            ) is None,
        },
{
    let mut out = Vec::new();
    let eh = ElementContentHandlers::default().element(|el: &mut Element| {
        for (n, v) in attr_rewrites(config, el.get_attribute("href"),
            el.get_attribute("src"), el.get_attribute("poster")) {
            let _ = el.set_attribute(&n, &v);
        }
        Ok(())
    });
    let s = Settings::new().append_element_content_handler((Cow::Owned("*".parse().ok()?), eh));
    let mut rw = LolRewriter::new(s, |c: &[u8]| out.extend(c));
    rw.write(input).ok()?;
    rw.end().ok()?;
    Some(out)
}

/// Relies on lol_html::HtmlRewriter: the pass prepends `head_script_tag`
/// inside every `<head>` element, right after its start tag, and is
/// deterministic in the input bytes.
#[verifier::external_body]
fn run_head_injector(input: &Vec<u8>) -> (r: Option<Vec<u8>>)
    ensures
        match r {
            Some(v) => head_injected(input@) == Some(v@),
            None => head_injected(input@) is None,
        },
{
    let mut out = Vec::new();
    let eh = ElementContentHandlers::default().element(|el: &mut Element| {
        el.prepend(head_script_tag().as_str(), Html);
        Ok(())
    });
    let s = Settings::new().append_element_content_handler((Cow::Owned("head".parse().ok()?), eh));
    let mut rw = LolRewriter::new(s, |c: &[u8]| out.extend(c));
    rw.write(input).ok()?;
    rw.end().ok()?;
    Some(out)
}

/// The fully rewritten form of an HTML document: attributes encoded, then
/// the patch script injected.
pub open spec fn html_rewritten(
    alphabet: AlphabetDef,
    key: Option<Seq<u8>>,
    public_host: Seq<char>,
    input: Seq<u8>,
) -> Option<Seq<u8>> {
    match attrs_rewritten(alphabet, key, public_host, input) {
        None => None,
        Some(m) => head_injected(m),
    }
}

/// Rewrites HTML response bodies; built once and shared by every handler.
pub struct HtmlRewriter {
    state: SharedState,
}

impl HtmlRewriter {
    pub closed spec fn state_spec(&self) -> SharedState {
        self.state
    }

    pub fn new(state: SharedState) -> (r: HtmlRewriter)
        ensures
            r.state_spec() == state,
    {
        HtmlRewriter { state }
    }

    /// Rewrite a buffered HTML body; `Err` exactly when lol_html fails on
    /// this input or its attribute-rewritten form.
    pub fn rewrite_html(&self, input: Vec<u8>) -> (r: Result<Vec<u8>, ProxyError>)
        ensures
            match r {
                Ok(v) => html_rewritten(
                    self.state_spec().config.url_encoding_algorithm.alphabet_spec(),
                    self.state_spec().config.url_encoding_algorithm.key_spec(),
                    self.state_spec().config.public_host@,
                    input@,
                ) == Some(v@),
                Err(e) => html_rewritten(
                    self.state_spec().config.url_encoding_algorithm.alphabet_spec(),
                    self.state_spec().config.url_encoding_algorithm.key_spec(),
                    self.state_spec().config.public_host@,
                    input@,
                ) is None && e == ProxyError::RewriteError,
            },
    {
        match run_attr_rewriter(&self.state.config, &input) {
            None => Err(ProxyError::RewriteError),
            Some(m) => match run_head_injector(&m) {
                None => Err(ProxyError::RewriteError),
                Some(v) => Ok(v),
            },
        }
    }
}

impl Rewriter for HtmlRewriter {
    fn rewrite(&self, input: Vec<u8>) -> Result<Vec<u8>, ProxyError> {
        self.rewrite_html(input)
    }
}

} // verus!
