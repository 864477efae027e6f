//! The parts of a parsed URL that the rewriting rules read, and the calls into the URL
//! parser that produce them.

use crate::encoding::is_url_safe;
use vstd::prelude::*;
use vstd::utf8::encode_utf8;

verus! {

/// A parsed absolute URL, as plain values.
#[derive(Debug, PartialEq, Eq)]
pub struct ParsedUrl {
    /// The serialization of the whole URL.
    pub href: String,
    /// The scheme, in lower case, without the colon.
    pub scheme: String,
    /// The host as it stands in `href`, if the URL has one.
    pub host: Option<String>,
    /// The port, unless it is absent or the default of the scheme.
    pub port: Option<u16>,
    /// The path as it stands in `href`.
    pub path: String,
    /// The query as it stands in `href`, without the question mark.
    pub query: Option<String>,
    /// The fragment as it stands in `href`, without the hash sign.
    pub fragment: Option<String>,
}

/// The mathematical value of a `ParsedUrl`.
pub struct UrlParts {
    pub href: Seq<char>,
    pub scheme: Seq<char>,
    pub host: Option<Seq<char>>,
    pub port: Option<u16>,
    pub path: Seq<char>,
    pub query: Option<Seq<char>>,
    pub fragment: Option<Seq<char>>,
}

/// The characters of an optional string.
pub open spec fn chars(text: Option<String>) -> Option<Seq<char>> {
    match text {
        Some(t) => Some(t@),
        None => None,
    }
}

impl View for ParsedUrl {
    type V = UrlParts;

    open spec fn view(&self) -> UrlParts {
        UrlParts {
            href: self.href@,
            scheme: self.scheme@,
            host: chars(self.host),
            port: self.port,
            path: self.path@,
            query: chars(self.query),
            fragment: chars(self.fragment),
        }
    }
}

/// The value of an optional `ParsedUrl`.
pub open spec fn parts(url: Option<ParsedUrl>) -> Option<UrlParts> {
    match url {
        Some(u) => Some(u@),
        None => None,
    }
}

/// What `url::Url::parse` makes of `input`: `None` where it reports an error.
pub uninterp spec fn url_parsed(input: Seq<char>) -> Option<UrlParts>;

/// The URL that `href` parses to, after `url::Url::set_port` with `Some(port)`; `None`
/// where `href` does not parse or the port cannot be set.
pub uninterp spec fn url_with_port(href: Seq<char>, port: u16) -> Option<UrlParts>;

/// The URL that `href` parses to, after `url::Url::set_path`; `None` where `href` does not
/// parse.
pub uninterp spec fn url_with_path(href: Seq<char>, path: Seq<char>) -> Option<UrlParts>;

/// The port that a scheme implies.
pub open spec fn default_port(scheme: Seq<char>) -> Option<u16> {
    if scheme == "http"@ || scheme == "ws"@ {
        Some(80u16)
    } else if scheme == "https"@ || scheme == "wss"@ {
        Some(443u16)
    } else if scheme == "ftp"@ {
        Some(21u16)
    } else {
        None
    }
}

/// The port that a connection to `url` goes to, where it is known.
pub open spec fn known_port(url: UrlParts) -> Option<u16> {
    if url.port is Some {
        url.port
    } else {
        default_port(url.scheme)
    }
}

/// `scheme` is one of `http`, `https`, `ws`, `wss` and `ftp`: the schemes whose URLs
/// always have a host.
pub open spec fn is_web_scheme(scheme: Seq<char>) -> bool {
    scheme == "http"@ || scheme == "https"@ || scheme == "ws"@ || scheme == "wss"@ || scheme
        == "ftp"@
}

/// Parsing the serialization of `url` gives `url` back.
pub open spec fn reparses(url: UrlParts) -> bool {
    url_parsed(url.href) == Some(url)
}

/// `url` parses back to itself if it has a host; with no host, nothing is said.
pub open spec fn settled(url: UrlParts) -> bool {
    url.host is Some ==> reparses(url)
}

/// `href` is a serialization: it parses, and to a URL whose serialization it is.
pub open spec fn is_serialization(href: Seq<char>) -> bool {
    url_parsed(href) matches Some(url) && url.href == href
}

/// What is known of `url`, the parse of `input`: it parses back to itself if it has a
/// host; under one of the schemes whose URLs always have a host, it has one that is not
/// empty; and where `input` starts with `https:`, its scheme is `https`.
pub open spec fn was_parsed(input: Seq<char>, url: UrlParts) -> bool {
    &&& settled(url)
    &&& is_web_scheme(url.scheme) ==> (url.host matches Some(host) && host.len() > 0)
    &&& "https:"@.is_prefix_of(input) ==> url.scheme == "https"@
}

/// The port of `url` can be set: it has a host that is not empty, and its scheme is not
/// `file`.
pub open spec fn takes_port(url: Option<UrlParts>) -> bool {
    &&& url matches Some(u)
    &&& u.host matches Some(host)
    &&& host.len() > 0
    &&& u.scheme != "file"@
}

/// What is known of `after`, the result of setting `port` on the URL `before`: all but
/// the port stays, there is a host, the port is `port` unless that is the default of the
/// scheme, and `after` parses back to itself.
pub open spec fn port_was_set(before: Option<UrlParts>, port: u16, after: UrlParts) -> bool {
    &&& before matches Some(b)
    &&& after.scheme == b.scheme
    &&& after.host == b.host
    &&& after.host is Some
    &&& after.port == if default_port(b.scheme) == Some(port) {
        None
    } else {
        Some(port)
    }
    &&& after.path == b.path
    &&& after.query == b.query
    &&& after.fragment == b.fragment
    &&& reparses(after)
}

/// `path` is not empty, does not start with a slash, and holds nothing but slashes and
/// characters of the URL-safe alphabet.
pub open spec fn is_plain_path(path: Seq<char>) -> bool {
    &&& path.len() > 0
    &&& path[0] != '/'
    &&& forall|i: int| 0 <= i < path.len() ==> #[trigger] path[i] == '/' || is_url_safe(path[i])
}

/// What is known of `after`, the result of setting `path` on the URL `before`: all but
/// the path stays; the serialization grows by no more than a slash and three bytes for
/// each byte of `path`; under a scheme other than `file`, `after` parses back to itself
/// if it has a host; and under one of the schemes whose URLs always have a host, a plain
/// path is taken as it is, behind a slash.
pub open spec fn path_was_set(before: Option<UrlParts>, path: Seq<char>, after: UrlParts) -> bool {
    &&& before matches Some(b)
    &&& after.scheme == b.scheme
    &&& after.host == b.host
    &&& after.port == b.port
    &&& after.query == b.query
    &&& after.fragment == b.fragment
    &&& encode_utf8(after.href).len() <= encode_utf8(b.href).len() + 3 * encode_utf8(path).len()
        + 1
    &&& after.scheme != "file"@ ==> settled(after)
    &&& is_web_scheme(after.scheme) && is_plain_path(path) ==> after.path == seq!['/'] + path
}

/// Setting `port` on the URL that `href` parses to writes no port: `port` is the default
/// of the scheme, so that a port is taken out at most.
pub open spec fn sets_default_port(href: Seq<char>, port: u16) -> bool {
    url_parsed(href) matches Some(url) && default_port(url.scheme) == Some(port)
}

/// A port can be written into `href`: `href` is a serialization already, so that parsing
/// it cannot make it longer, and with a colon and five digits more it stays within the
/// 4 GiB that the URL type can hold.
pub open spec fn port_fits(href: Seq<char>) -> bool {
    is_serialization(href) && encode_utf8(href).len() + 6 <= u32::MAX
}

/// A path of `path_bytes` bytes can be set on a serialization of `href_bytes` bytes:
/// with every byte of the path percent-encoded and a slash more, it stays within the
/// 4 GiB that the URL type can hold.
pub open spec fn path_fits(href_bytes: nat, path_bytes: nat) -> bool {
    href_bytes + 3 * path_bytes + 1 <= u32::MAX
}

/// Calls `url::Url::parse`, and reads `as_str`, `scheme`, `host_str`, `port`, `path`,
/// `query` and `fragment` of the result. The contract names the result and claims
/// `was_parsed` of it.
#[verifier::external_body]
pub(crate) fn parse_url(input: &str) -> (url: Option<ParsedUrl>)
    ensures
        parts(url) == url_parsed(input@),
        url matches Some(u) ==> was_parsed(input@, u@),
{
    let url = ::url::Url::parse(input).ok()?;
    Some(
        ParsedUrl {
            href: url.as_str().to_owned(),
            scheme: url.scheme().to_owned(),
            host: url.host_str().map(str::to_owned),
            port: url.port(),
            path: url.path().to_owned(),
            query: url.query().map(str::to_owned),
            fragment: url.fragment().map(str::to_owned),
        },
    )
}

/// Parses `href` and calls `url::Url::set_port` with `Some(port)`. The contract names the
/// result and claims: the call succeeds if and only if the URL has a host that is not
/// empty and its scheme is not `file`; then `port_was_set` holds of the result. The call
/// panics where it writes a port and the serialization passes 4 GiB with it, hence the
/// `requires`: either no port is written, or there is room for one.
#[verifier::external_body]
pub(crate) fn set_port(href: &str, port: u16) -> (url: Option<ParsedUrl>)
    requires
        sets_default_port(href@, port) || port_fits(href@),
    ensures
        parts(url) == url_with_port(href@, port),
        url is Some <==> takes_port(url_parsed(href@)),
        url matches Some(u) ==> port_was_set(url_parsed(href@), port, u@),
{
    let mut url = ::url::Url::parse(href).ok()?;
    url.set_port(Some(port)).ok()?;
    Some(
        ParsedUrl {
            href: url.as_str().to_owned(),
            scheme: url.scheme().to_owned(),
            host: url.host_str().map(str::to_owned),
            port: url.port(),
            path: url.path().to_owned(),
            query: url.query().map(str::to_owned),
            fragment: url.fragment().map(str::to_owned),
        },
    )
}

/// Parses `href` and calls `url::Url::set_path`. The contract names the result and
/// claims: there is a result, and `path_was_set` holds of it. The call panics where the
/// serialization passes 4 GiB; the bound is on a text that is a serialization already,
/// so that parsing it cannot make it longer.
#[verifier::external_body]
pub(crate) fn set_path(href: &str, path: &str) -> (url: Option<ParsedUrl>)
    requires
        is_serialization(href@),
        path_fits(encode_utf8(href@).len(), encode_utf8(path@).len()),
    ensures
        parts(url) == url_with_path(href@, path@),
        url is Some,
        url matches Some(u) ==> path_was_set(url_parsed(href@), path@, u@),
{
    let mut url = ::url::Url::parse(href).ok()?;
    url.set_path(path);
    Some(
        ParsedUrl {
            href: url.as_str().to_owned(),
            scheme: url.scheme().to_owned(),
            host: url.host_str().map(str::to_owned),
            port: url.port(),
            path: url.path().to_owned(),
            query: url.query().map(str::to_owned),
            fragment: url.fragment().map(str::to_owned),
        },
    )
}

} // verus!
