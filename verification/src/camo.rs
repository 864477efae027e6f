//! Image URLs: which may be served as they are, and which go through the signed relay.

use crate::encoding::{
    base64url, base64url_decoded, base64url_len, encode_base64url, hmac_sha1, is_url_safe,
    lemma_base64url_decodes, lemma_base64url_is_url_safe, lemma_base64url_len, sign_sha1,
    MAX_SIGNED_BYTES,
};
use crate::text::{chars_of, find_char, index_of, same_text, text_of};
use crate::urls::{
    chars, default_port, is_plain_path, known_port, parse_url, parts, path_fits, set_path,
    set_port, url_parsed, url_with_path, url_with_port, was_parsed, ParsedUrl, UrlParts,
};
use vstd::prelude::*;
use vstd::string::*;
use vstd::utf8::encode_utf8;

verus! {

/// Where media is served from, and how third-party media is relayed.
#[derive(Debug, PartialEq, Eq)]
pub struct CamoConfig {
    /// The host that serves media that has been processed already; `None` where none is
    /// configured.
    pub cdn_host: Option<String>,
    /// The host of the relay.
    pub camo_host: String,
    /// The key that signs relay paths; empty where relaying is switched off.
    pub camo_key: String,
}

/// The mathematical value of a `CamoConfig`.
pub struct CamoSettings {
    pub cdn_host: Option<Seq<char>>,
    pub camo_host: Seq<char>,
    pub camo_key: Seq<char>,
}

impl View for CamoConfig {
    type V = CamoSettings;

    open spec fn view(&self) -> CamoSettings {
        CamoSettings {
            cdn_host: match self.cdn_host {
                Some(h) => Some(h@),
                None => None,
            },
            camo_host: self.camo_host@,
            camo_key: self.camo_key@,
        }
    }
}

impl CamoSettings {
    /// Relaying is switched on: a CDN host is configured and the key is not empty.
    pub open spec fn relays(self) -> bool {
        self.cdn_host is Some && self.camo_key.len() > 0
    }

    /// `host` is the CDN host or the relay host.
    pub open spec fn is_own_host(self, host: Seq<char>) -> bool {
        self.cdn_host == Some(host) || self.camo_host == host
    }
}

/// How far a URL is trusted.
#[derive(Debug, PartialEq, Eq)]
pub enum Trust {
    /// Relaying is switched off: the input is handed on as it was given.
    PassThrough,
    /// The URL does not parse.
    Invalid,
    /// The URL has no host.
    NoHost,
    /// The URL points at the CDN or at the relay itself.
    Trusted(ParsedUrl),
    /// The URL points at a third party.
    NeedsProxy(ParsedUrl),
}

/// The mathematical value of a `Trust`.
pub enum TrustClass {
    PassThrough,
    Invalid,
    NoHost,
    Trusted(UrlParts),
    NeedsProxy(UrlParts),
}

impl View for Trust {
    type V = TrustClass;

    open spec fn view(&self) -> TrustClass {
        match *self {
            Trust::PassThrough => TrustClass::PassThrough,
            Trust::Invalid => TrustClass::Invalid,
            Trust::NoHost => TrustClass::NoHost,
            Trust::Trusted(u) => TrustClass::Trusted(u@),
            Trust::NeedsProxy(u) => TrustClass::NeedsProxy(u@),
        }
    }
}

/// The class of a URL whose parse gave `parsed`, while relaying is switched on.
pub open spec fn class_of_parsed(settings: CamoSettings, parsed: Option<UrlParts>) -> TrustClass {
    match parsed {
        None => TrustClass::Invalid,
        Some(url) => match url.host {
            None => TrustClass::NoHost,
            Some(host) => if settings.is_own_host(host) {
                TrustClass::Trusted(url)
            } else {
                TrustClass::NeedsProxy(url)
            },
        },
    }
}

/// The class of the URL `uri` under `settings`.
pub open spec fn class_of(settings: CamoSettings, uri: Seq<char>) -> TrustClass {
    if settings.relays() {
        class_of_parsed(settings, url_parsed(uri))
    } else {
        TrustClass::PassThrough
    }
}

/// Classifies a URL from the outcome of parsing it, for a configuration that relays.
pub fn classify_parsed(config: &CamoConfig, parsed: Option<ParsedUrl>) -> (trust: Trust)
    ensures
        trust@ == class_of_parsed(config@, parts(parsed)),
{
    let url = match parsed {
        None => {
            return Trust::Invalid;
        },
        Some(url) => url,
    };
    let own = match &url.host {
        None => {
            return Trust::NoHost;
        },
        Some(host) => {
            let is_cdn = match &config.cdn_host {
                Some(cdn_host) => same_text(host.as_str(), cdn_host.as_str()),
                None => false,
            };
            is_cdn || same_text(host.as_str(), config.camo_host.as_str())
        },
    };
    if own {
        Trust::Trusted(url)
    } else {
        Trust::NeedsProxy(url)
    }
}

/// Classifies the URL `uri`: handed on untouched where relaying is switched off, else
/// parsed and judged by its host. Of a URL that comes back, what is known of every parse
/// is known.
pub fn classify(config: &CamoConfig, uri: &str) -> (trust: Trust)
    ensures
        trust@ == class_of(config@, uri@),
        trust matches Trust::Trusted(url) ==> was_parsed(uri@, url@),
        trust matches Trust::NeedsProxy(url) ==> was_parsed(uri@, url@),
{
    if config.cdn_host.is_none() || config.camo_key.as_str().is_empty() {
        return Trust::PassThrough;
    }
    classify_parsed(config, parse_url(uri))
}

/// The text of `href` with `https` in place of its scheme: `https:` and what follows the
/// first colon of `href`. `None` where `href` holds no colon.
pub open spec fn https_text(href: Seq<char>) -> Option<Seq<char>> {
    let colon = index_of(href, ':');
    if 0 <= colon < href.len() {
        Some("https:"@ + href.skip(colon + 1))
    } else {
        None
    }
}

/// What the parser reads when the URL serialized as `href` is written with `https` in
/// place of its scheme.
pub open spec fn https_reading(href: Seq<char>) -> Option<UrlParts> {
    match https_text(href) {
        Some(text) => url_parsed(text),
        None => None,
    }
}

/// `url` can be forced onto `https`: written with `https` in place of its scheme, it is
/// read with the same host.
pub open spec fn can_be_secured(url: UrlParts) -> bool {
    &&& https_reading(url.href) matches Some(reading)
    &&& reading.host == url.host
}

/// The URL that `url` becomes when it is forced onto `https` and port 443: its reading
/// under `https`, with the port set. `None` where `url` cannot be secured.
pub open spec fn secured_url(url: UrlParts) -> Option<UrlParts> {
    if can_be_secured(url) {
        url_with_port(https_reading(url.href)->0.href, 443)
    } else {
        None
    }
}

/// The serialization of an optional URL.
pub open spec fn href_of(url: Option<UrlParts>) -> Option<Seq<char>> {
    match url {
        Some(u) => Some(u.href),
        None => None,
    }
}

/// `href` is the serialization of a URL on `host`, with scheme `https` and port 443.
pub open spec fn is_https_on(href: Seq<char>, host: Option<Seq<char>>) -> bool {
    &&& url_parsed(href) matches Some(url)
    &&& host matches Some(name)
    &&& name.len() > 0
    &&& url.host == host
    &&& url.scheme == "https"@
    &&& known_port(url) == Some(443u16)
}

/// `href` is the serialization of `url` forced onto `https` and port 443: a URL on the
/// host of `url`, with scheme `https`, port 443, and the path, query and fragment that
/// `url` has in its reading under `https`.
pub open spec fn secures(url: UrlParts, href: Seq<char>) -> bool {
    &&& is_https_on(href, url.host)
    &&& url_parsed(href) matches Some(out)
    &&& https_reading(url.href) matches Some(reading)
    &&& out.path == reading.path
    &&& out.query == reading.query
    &&& out.fragment == reading.fragment
}

/// Writes `href` with `https` in place of its scheme.
fn with_https(href: &str) -> (text: Option<String>)
    ensures
        text_of(text) == https_text(href@),
{
    let chars = chars_of(href);
    let colon = find_char(&chars, ':');
    if colon >= chars.len() {
        return None;
    }
    let rest = href.substring_char(colon + 1, chars.len());
    assert(href@.subrange(colon + 1, href@.len() as int) =~= href@.skip(colon + 1));
    Some(String::from_str("https:").concat(rest))
}

/// Whether the two hosts are the same host, and there is one.
fn same_host(a: &Option<String>, b: &Option<String>) -> (same: bool)
    ensures
        same == (a is Some && chars(*a) == chars(*b)),
{
    match (a, b) {
        (Some(x), Some(y)) => same_text(x.as_str(), y.as_str()),
        _ => false,
    }
}

/// Forces an already trusted URL onto `https` and port 443, and gives its serialization.
///
/// There is a result if and only if `url`, written with `https` in place of its scheme,
/// is read with the same host. The result is then a URL on that host, with scheme
/// `https`, port 443, and the path, query and fragment of that reading.
pub fn trusted_host(url: &ParsedUrl) -> (href: Option<String>)
    ensures
        text_of(href) == href_of(secured_url(url@)),
        href is Some <==> can_be_secured(url@),
        href matches Some(h) ==> secures(url@, h@),
{
    let text = match with_https(url.href.as_str()) {
        Some(text) => text,
        None => {
            return None;
        },
    };
    let reading = match parse_url(text.as_str()) {
        Some(reading) => reading,
        None => {
            return None;
        },
    };
    if !same_host(&reading.host, &url.host) {
        return None;
    }
    proof {
        reveal_strlit("https:");
        reveal_strlit("https");
        reveal_strlit("http");
        reveal_strlit("ws");
        reveal_strlit("file");
        assert("https:"@.len() == 6 && "https"@.len() == 5 && "http"@.len() == 4 && "ws"@.len()
            == 2 && "file"@.len() == 4);
        assert("https:"@.is_prefix_of(text@)) by {
            assert(text@.subrange(0, 6) =~= "https:"@);
        }
        assert(default_port("https"@) == Some(443u16));
    }
    match set_port(reading.href.as_str(), 443) {
        Some(u) => Some(u.href),
        None => None,
    }
}

/// The signature of the URL serialized as `href` under `key`, as it stands in the path.
pub open spec fn signature(href: Seq<char>, key: Seq<char>) -> Seq<char> {
    base64url(hmac_sha1(encode_utf8(key), encode_utf8(href)))
}

/// The path of the relay URL for `href` under `key`: the signature of the serialized URL,
/// a slash, and the serialized URL itself, both in URL-safe base64 without padding.
pub open spec fn signed_path(href: Seq<char>, key: Seq<char>) -> Seq<char> {
    signature(href, key) + "/"@ + base64url(encode_utf8(href))
}

/// A signed path falls into its two parts at its one slash: the signature stands before
/// it, and what stands behind it decodes to the bytes of the serialized URL.
pub proof fn lemma_signed_path_holds_the_url(href: Seq<char>, key: Seq<char>)
    ensures
        signed_path(href, key).len() > signature(href, key).len(),
        signed_path(href, key).take(signature(href, key).len() as int) == signature(href, key),
        signed_path(href, key)[signature(href, key).len() as int] == '/',
        forall|i: int|
            0 <= i < signed_path(href, key).len() && i != signature(href, key).len()
                ==> is_url_safe(#[trigger] signed_path(href, key)[i]),
        base64url_decoded(signed_path(href, key).skip(signature(href, key).len() as int + 1))
            == encode_utf8(href),
{
    let sig = signature(href, key);
    let enc = base64url(encode_utf8(href));
    let path = signed_path(href, key);
    reveal_strlit("/");
    lemma_base64url_is_url_safe(hmac_sha1(encode_utf8(key), encode_utf8(href)));
    lemma_base64url_is_url_safe(encode_utf8(href));
    lemma_base64url_decodes(encode_utf8(href));
    assert(path.take(sig.len() as int) =~= sig);
    assert(path.skip(sig.len() as int + 1) =~= enc);
    assert forall|i: int| 0 <= i < path.len() && i != sig.len() implies is_url_safe(
        #[trigger] path[i],
    ) by {
        if i < sig.len() {
            assert(path[i] == sig[i]);
        } else {
            assert(path[i] == enc[i - sig.len() - 1]);
        }
    }
}

/// Neither the key nor the serialized URL is longer than what can be signed.
pub open spec fn signable(href: Seq<char>, key: Seq<char>) -> bool {
    encode_utf8(key).len() <= MAX_SIGNED_BYTES && encode_utf8(href).len() <= MAX_SIGNED_BYTES
}

/// The origin of the relay, `https://` and the relay host, as the parser reads it.
pub open spec fn relay_origin(camo_host: Seq<char>) -> Option<UrlParts> {
    url_parsed("https://"@ + camo_host)
}

/// The host of the relay's origin.
pub open spec fn relay_host(camo_host: Seq<char>) -> Option<Seq<char>> {
    match relay_origin(camo_host) {
        Some(origin) => origin.host,
        None => None,
    }
}

/// The relay URL for `href` can be built: key and URL can be signed, the origin of the
/// relay parses, and the signed path fits behind it.
pub open spec fn can_relay(href: Seq<char>, camo_host: Seq<char>, camo_key: Seq<char>) -> bool {
    &&& signable(href, camo_key)
    &&& relay_origin(camo_host) matches Some(origin)
    &&& path_fits(encode_utf8(origin.href).len(), encode_utf8(signed_path(href, camo_key)).len())
}

/// The relay URL for the URL serialized as `href`: the origin of the relay, with the
/// signed path set on it and then the port 443. `None` where it cannot be built.
pub open spec fn relay_url(href: Seq<char>, camo_host: Seq<char>, camo_key: Seq<char>) -> Option<
    UrlParts,
> {
    if can_relay(href, camo_host, camo_key) {
        match url_with_path(relay_origin(camo_host)->0.href, signed_path(href, camo_key)) {
            Some(with_path) => url_with_port(with_path.href, 443),
            None => None,
        }
    } else {
        None
    }
}

/// `relay` is the serialization of the relay URL for `href`: a URL on the host of the
/// relay's origin, with scheme `https`, port 443, the signed path behind a slash as its
/// path, and the query and fragment of the origin.
pub open spec fn relays_to(
    relay: Seq<char>,
    href: Seq<char>,
    camo_host: Seq<char>,
    camo_key: Seq<char>,
) -> bool {
    &&& is_https_on(relay, relay_host(camo_host))
    &&& url_parsed(relay) matches Some(out)
    &&& relay_origin(camo_host) matches Some(origin)
    &&& out.path == seq!['/'] + signed_path(href, camo_key)
    &&& out.query == origin.query
    &&& out.fragment == origin.fragment
}

/// Whether a path of `path_bytes` bytes can be set on a URL of `href_bytes` bytes.
fn fits(href_bytes: usize, path_bytes: usize) -> (ok: bool)
    ensures
        ok == path_fits(href_bytes as nat, path_bytes as nat),
{
    path_bytes <= 0x5555_5554 && href_bytes <= 0xffff_fffe - 3 * path_bytes
}

/// Builds the signed relay URL for a third-party URL.
///
/// There is a result if and only if key and URL can be signed, the origin of the relay
/// parses, and the signed path fits behind it. The result is a function of the three
/// inputs alone, so the same URL, host and key give the same relay URL, byte for byte.
/// It is a URL on the host of the relay's origin, with scheme `https`, port 443, and the
/// signed path as its path.
pub fn untrusted_host(url: &ParsedUrl, camo_host: &str, camo_key: &str) -> (href: Option<String>)
    ensures
        text_of(href) == href_of(relay_url(url@.href, camo_host@, camo_key@)),
        href is Some <==> can_relay(url@.href, camo_host@, camo_key@),
        href matches Some(h) ==> relays_to(h@, url@.href, camo_host@, camo_key@),
{
    let key_bytes = camo_key.as_bytes();
    let url_bytes = url.href.as_str().as_bytes();
    if key_bytes.len() > MAX_SIGNED_BYTES || url_bytes.len() > MAX_SIGNED_BYTES {
        return None;
    }
    let tag = sign_sha1(key_bytes, url_bytes);
    let encoded = encode_base64url(tag.as_slice());
    let encoded_url = encode_base64url(url_bytes);
    let path = encoded.concat("/").concat(encoded_url.as_str());

    let camo_url = String::from_str("https://").concat(camo_host);
    let origin = match parse_url(camo_url.as_str()) {
        Some(u) => u,
        None => {
            return None;
        },
    };
    if !fits(origin.href.as_str().as_bytes().len(), path.as_str().as_bytes().len()) {
        return None;
    }
    proof {
        reveal_strlit("https://");
        reveal_strlit("https:");
        reveal_strlit("https");
        reveal_strlit("http");
        reveal_strlit("ws");
        reveal_strlit("file");
        reveal_strlit("/");
        assert("https://"@.len() == 8 && "https:"@.len() == 6 && "https"@.len() == 5 && "http"@.len()
            == 4 && "ws"@.len() == 2 && "file"@.len() == 4 && "/"@.len() == 1);
        assert("https:"@.is_prefix_of(camo_url@)) by {
            assert(camo_url@.subrange(0, 6) =~= "https:"@);
        }
        assert(default_port("https"@) == Some(443u16));
        lemma_signed_path_holds_the_url(url@.href, camo_key@);
        lemma_base64url_len(hmac_sha1(encode_utf8(camo_key@), encode_utf8(url@.href)));
        assert(base64url_len(20) == 27);
        assert(is_plain_path(path@));
    }
    let with_path = match set_path(origin.href.as_str(), path.as_str()) {
        Some(u) => u,
        None => {
            return None;
        },
    };
    let relay = set_port(with_path.href.as_str(), 443);
    match relay {
        Some(u) => Some(u.href),
        None => None,
    }
}

/// What an image URL is rewritten to: itself where relaying is switched off, nothing
/// where it does not parse, the empty string where it has no host, its `https` form where
/// it points at the CDN or the relay, and else its relay URL.
pub open spec fn image_href(settings: CamoSettings, uri: Seq<char>) -> Option<Seq<char>> {
    match class_of(settings, uri) {
        TrustClass::PassThrough => Some(uri),
        TrustClass::Invalid => None,
        TrustClass::NoHost => Some(Seq::<char>::empty()),
        TrustClass::Trusted(url) => href_of(secured_url(url)),
        TrustClass::NeedsProxy(url) => href_of(
            relay_url(url.href, settings.camo_host, settings.camo_key),
        ),
    }
}

/// `href` is what the class of an image URL asks for: for a URL on the CDN host or the
/// relay host that can be secured, its form on the same host with scheme `https` and
/// port 443; for a third-party URL whose relay URL can be built, that relay URL, on the
/// relay host with scheme `https` and port 443.
pub open spec fn serves(class: TrustClass, settings: CamoSettings, href: Seq<char>) -> bool {
    match class {
        TrustClass::Trusted(url) => can_be_secured(url) ==> secures(url, href),
        TrustClass::NeedsProxy(url) => can_relay(url.href, settings.camo_host, settings.camo_key)
            ==> relays_to(href, url.href, settings.camo_host, settings.camo_key),
        _ => true,
    }
}

/// There is a rewritten URL for an image URL of this class: always, but for a URL that
/// does not parse, a URL on the CDN host or the relay host that cannot be secured, and a
/// third-party URL whose relay URL cannot be built.
pub open spec fn is_served(class: TrustClass, settings: CamoSettings) -> bool {
    match class {
        TrustClass::PassThrough => true,
        TrustClass::Invalid => false,
        TrustClass::NoHost => true,
        TrustClass::Trusted(url) => can_be_secured(url),
        TrustClass::NeedsProxy(url) => can_relay(
            url.href,
            settings.camo_host,
            settings.camo_key,
        ),
    }
}

/// Rewrites the URL of an image.
///
/// With an empty key, or with no CDN host, the input comes back unchanged. Else a URL on
/// the CDN host or the relay host comes back on the same host, with scheme `https` and
/// port 443, whatever its scheme was, provided that it is read with the same host when
/// it is written with `https`. A URL on any other host comes back as a URL on the relay
/// host, with scheme `https`, port 443 and the signed path, provided that the origin of
/// the relay parses.
pub fn image_url(config: &CamoConfig, uri: &str) -> (href: Option<String>)
    ensures
        text_of(href) == image_href(config@, uri@),
        !config@.relays() ==> text_of(href) == Some(uri@),
        href is Some <==> is_served(class_of(config@, uri@), config@),
        href matches Some(h) ==> serves(class_of(config@, uri@), config@, h@),
{
    match classify(config, uri) {
        Trust::PassThrough => Some(uri.to_owned()),
        Trust::Invalid => None,
        Trust::NoHost => Some(String::new()),
        Trust::Trusted(url) => trusted_host(&url),
        Trust::NeedsProxy(url) => untrusted_host(
            &url,
            config.camo_host.as_str(),
            config.camo_key.as_str(),
        ),
    }
}

/// Rewrites the URL of an image, with the empty string where `image_url` gives nothing.
///
/// What `image_url` promises of a result holds of this one wherever there is a result to
/// give.
pub fn image_url_careful(config: &CamoConfig, uri: &str) -> (href: String)
    ensures
        href@ == match image_href(config@, uri@) {
            Some(h) => h,
            None => Seq::<char>::empty(),
        },
        !config@.relays() ==> href@ == uri@,
        !is_served(class_of(config@, uri@), config@) ==> href@.len() == 0,
        serves(class_of(config@, uri@), config@, href@),
{
    match image_url(config, uri) {
        Some(h) => h,
        None => String::new(),
    }
}

} // verus!
