//! The registry of first-party hosts, and the rewriting of links to them into
//! host-relative form.

use crate::text::{chars_of, same_text, starts_with_at, text_of};
use vstd::prelude::*;
use vstd::string::*;

verus! {

/// The first-party host names. As `get` makes it, no name occurs twice.
pub type DomainSet = Vec<String>;

/// The names that a registry holds, as character sequences.
pub open spec fn names(domains: Seq<String>) -> Seq<Seq<char>> {
    domains.map_values(|d: String| d@)
}

/// The index of the first comma of `text`, or its length where it has none.
pub open spec fn first_comma(text: Seq<char>) -> int
    decreases text.len(),
{
    if text.len() == 0 || text[0] == ',' {
        0
    } else {
        1 + first_comma(text.skip(1))
    }
}

/// The fields of `text` that its commas separate: one more than it has commas, and
/// nothing trimmed.
pub open spec fn fields(text: Seq<char>) -> Seq<Seq<char>>
    decreases text.len(),
{
    let end = first_comma(text);
    if 0 <= end < text.len() {
        seq![text.take(end)] + fields(text.skip(end + 1))
    } else {
        seq![text]
    }
}

/// `first_comma` stays within the text, no comma stands before it, and one stands at it
/// unless it is the end.
pub proof fn lemma_first_comma(text: Seq<char>)
    ensures
        0 <= first_comma(text) <= text.len(),
        forall|i: int| 0 <= i < first_comma(text) ==> text[i] != ',',
        first_comma(text) < text.len() ==> text[first_comma(text)] == ',',
    decreases text.len(),
{
    if text.len() == 0 || text[0] == ',' {
    } else {
        let rest = text.skip(1);
        lemma_first_comma(rest);
        assert forall|i: int| 0 <= i < first_comma(text) implies text[i] != ',' by {
            if i > 0 {
                assert(text[i] == rest[i - 1]);
            }
        }
        assert(first_comma(text) < text.len() ==> text[first_comma(text)] == rest[first_comma(
            rest,
        )]);
    }
}

/// Where no comma stands in the first `n` characters of `text`, and one stands at `n` or
/// `n` is the end, the first comma is at `n`.
pub proof fn lemma_first_comma_is(text: Seq<char>, n: int)
    requires
        0 <= n <= text.len(),
        forall|i: int| 0 <= i < n ==> text[i] != ',',
        n < text.len() ==> text[n] == ',',
    ensures
        first_comma(text) == n,
    decreases n,
{
    if n > 0 {
        let rest = text.skip(1);
        assert forall|i: int| 0 <= i < n - 1 implies rest[i] != ',' by {
            assert(rest[i] == text[i + 1]);
        }
        lemma_first_comma_is(rest, n - 1);
    }
}

/// The items of `items`, with a comma between each two.
pub open spec fn joined(items: Seq<Seq<char>>) -> Seq<char>
    decreases items.len(),
{
    if items.len() == 0 {
        Seq::<char>::empty()
    } else if items.len() == 1 {
        items[0]
    } else {
        items[0] + seq![','] + joined(items.skip(1))
    }
}

/// The fields of a text are what its commas separate: there is at least one field, no
/// field holds a comma, and the fields with commas between them are the text.
pub proof fn lemma_fields(text: Seq<char>)
    ensures
        fields(text).len() >= 1,
        forall|i: int, j: int|
            0 <= i < fields(text).len() && 0 <= j < fields(text)[i].len() ==> fields(text)[i][j]
                != ',',
        joined(fields(text)) == text,
    decreases text.len(),
{
    let end = first_comma(text);
    lemma_first_comma(text);
    if end < text.len() {
        let head = text.take(end);
        let tail = text.skip(end + 1);
        lemma_fields(tail);
        assert(fields(text).skip(1) =~= fields(tail));
        assert(joined(fields(text)) =~= head + seq![','] + tail);
        assert(head + seq![','] + tail =~= text);
        assert forall|i: int, j: int|
            0 <= i < fields(text).len() && 0 <= j < fields(text)[i].len() implies fields(
            text,
        )[i][j] != ',' by {
            if i > 0 {
                assert(fields(text)[i] == fields(tail)[i - 1]);
            }
        }
    }
}

/// `items` without the repetitions: of equal items the first one stays, in its place.
pub open spec fn distinct(items: Seq<Seq<char>>) -> Seq<Seq<char>>
    decreases items.len(),
{
    if items.len() == 0 {
        items
    } else {
        let front = distinct(items.drop_last());
        if front.contains(items.last()) {
            front
        } else {
            front.push(items.last())
        }
    }
}

/// `distinct` keeps exactly the items that occur, each once.
pub proof fn lemma_distinct(items: Seq<Seq<char>>)
    ensures
        distinct(items).no_duplicates(),
        forall|item: Seq<char>| distinct(items).contains(item) <==> items.contains(item),
    decreases items.len(),
{
    if items.len() > 0 {
        let front = items.drop_last();
        let last = items.last();
        let kept = distinct(front);
        lemma_distinct(front);
        assert(items =~= front.push(last));
        assert forall|item: Seq<char>| distinct(items).contains(item) <==> items.contains(
            item,
        ) by {
            assert(kept.contains(item) <==> front.contains(item));
            if items.contains(item) && !distinct(items).contains(item) {
                let i = choose|i: int| 0 <= i < items.len() && items[i] == item;
                if i < front.len() {
                    assert(front[i] == item);
                    let j = choose|j: int| 0 <= j < kept.len() && kept[j] == item;
                    assert(distinct(items)[j] == item);
                } else {
                    assert(item == last);
                    if kept.contains(last) {
                    } else {
                        assert(distinct(items)[kept.len() as int] == item);
                    }
                }
            }
            if distinct(items).contains(item) && !items.contains(item) {
                let j = choose|j: int| 0 <= j < distinct(items).len() && distinct(items)[j] == item;
                if j < kept.len() {
                    assert(kept[j] == item);
                    let i = choose|i: int| 0 <= i < front.len() && front[i] == item;
                    assert(items[i] == item);
                } else {
                    assert(items[items.len() - 1] == item);
                }
            }
        }
    }
}

/// Whether the registry holds `name`, letter for letter.
pub fn contains_name(domains: &DomainSet, name: &str) -> (found: bool)
    ensures
        found == names(domains@).contains(name@),
{
    let mut i: usize = 0;
    while i < domains.len()
        invariant
            i <= domains.len(),
            forall|j: int| 0 <= j < i ==> names(domains@)[j] != name@,
        decreases domains.len() - i,
    {
        if same_text(domains[i].as_str(), name) {
            assert(names(domains@)[i as int] == name@);
            return true;
        }
        i += 1;
    }
    false
}

/// Adds `name` to the registry unless it is there already.
fn insert_name(domains: &mut DomainSet, name: String)
    ensures
        names(final(domains)@) == if names(old(domains)@).contains(name@) {
            names(old(domains)@)
        } else {
            names(old(domains)@).push(name@)
        },
{
    if !contains_name(domains, name.as_str()) {
        domains.push(name);
        assert(names(domains@) =~= names(old(domains)@).push(name@));
    }
}

/// Reads the registry from the configured value, if there is one: the fields between its
/// commas, taken as they stand, each once. The registry holds a name if and only if it
/// is one of the fields.
pub fn get(value: Option<&str>) -> (domains: Option<DomainSet>)
    ensures
        value is None <==> domains is None,
        (value, domains) matches (Some(v), Some(d)) ==> {
            &&& names(d@) == distinct(fields(v@))
            &&& names(d@).no_duplicates()
            &&& forall|name: Seq<char>| names(d@).contains(name) <==> fields(v@).contains(name)
        },
{
    let text = match value {
        Some(v) => v,
        None => {
            return None;
        },
    };
    let chars = chars_of(text);
    let n = chars.len();
    let mut domains: DomainSet = Vec::new();
    let mut start: usize = 0;
    let mut i: usize = 0;
    let ghost mut done: Seq<Seq<char>> = Seq::empty();
    assert(text@.skip(0) =~= text@);
    while i < n
        invariant
            n == chars@.len(),
            chars@ == text@,
            start <= i <= n,
            forall|j: int| start <= j < i ==> chars@[j] != ',',
            fields(text@) == done + fields(text@.skip(start as int)),
            names(domains@) == distinct(done),
        decreases n - i,
    {
        if chars[i] == ',' {
            let field = text.substring_char(start, i).to_owned();
            proof {
                let rest = text@.skip(start as int);
                lemma_first_comma_is(rest, i - start);
                assert(rest.take(i - start) =~= text@.subrange(start as int, i as int));
                assert(rest.skip(i - start + 1) =~= text@.skip(i + 1));
                assert(done.push(field@).drop_last() =~= done);
                assert(done + fields(rest) =~= done.push(field@) + fields(text@.skip(i + 1)));
                done = done.push(field@);
            }
            insert_name(&mut domains, field);
            start = i + 1;
        }
        i += 1;
    }
    let field = text.substring_char(start, n).to_owned();
    proof {
        let rest = text@.skip(start as int);
        lemma_first_comma_is(rest, n - start);
        assert(text@.subrange(start as int, n as int) =~= rest);
        assert(done.push(field@).drop_last() =~= done);
        assert(done + fields(rest) =~= done.push(field@));
    }
    insert_name(&mut domains, field);
    proof {
        lemma_distinct(fields(text@));
    }
    Some(domains)
}

/// The start of a URL on `host`: `https://` or `http://`, and the host.
pub open spec fn origin(secure: bool, host: Seq<char>) -> Seq<char> {
    if secure {
        "https://"@ + host
    } else {
        "http://"@ + host
    }
}

/// `url` without a leading `https://` + `host` or `http://` + `host`; `url` itself where
/// it starts with neither. Upper and lower case differ.
pub open spec fn without_origin(host: Seq<char>, url: Seq<char>) -> Seq<char> {
    if origin(true, host).is_prefix_of(url) {
        url.skip(origin(true, host).len() as int)
    } else if origin(false, host).is_prefix_of(url) {
        url.skip(origin(false, host).len() as int)
    } else {
        url
    }
}

/// The characters of `scheme` followed by those of `host`.
fn origin_chars(scheme: &str, host: &Vec<char>) -> (chars: Vec<char>)
    ensures
        chars@ == scheme@ + host@,
{
    let mut chars = chars_of(scheme);
    let mut i: usize = 0;
    while i < host.len()
        invariant
            i <= host.len(),
            chars@ == scheme@ + host@.take(i as int),
        decreases host.len() - i,
    {
        chars.push(host[i]);
        assert(host@.take(i + 1) =~= host@.take(i as int).push(host@[i as int]));
        i += 1;
    }
    assert(host@.take(host@.len() as int) =~= host@);
    chars
}

/// Takes the origin of `host` off the front of `url`, for either of `http` and `https`.
pub fn strip_origin(host: &str, url: &str) -> (rest: String)
    ensures
        rest@ == without_origin(host@, url@),
{
    let text = chars_of(url);
    let name = chars_of(host);
    let secure = origin_chars("https://", &name);
    assert(text@.skip(0) =~= text@);
    if starts_with_at(&text, 0, &secure) {
        return url.substring_char(secure.len(), text.len()).to_owned();
    }
    let plain = origin_chars("http://", &name);
    if starts_with_at(&text, 0, &plain) {
        return url.substring_char(plain.len(), text.len()).to_owned();
    }
    url.to_owned()
}

/// What `http::Uri`'s parser makes of `url`: `None` where it reports an error, else the
/// host of the authority, if the URI has an authority.
pub uninterp spec fn uri_host(url: Seq<char>) -> Option<Option<Seq<char>>>;

/// The characters of an optional, optional string.
pub open spec fn host_text(host: Option<Option<String>>) -> Option<Option<Seq<char>>> {
    match host {
        None => None,
        Some(None) => Some(None),
        Some(Some(h)) => Some(Some(h@)),
    }
}

/// Parses `url` with `http::Uri`'s `FromStr`, and reads `Uri::authority` and
/// `Authority::host`. The contract names the result.
#[verifier::external_body]
pub(crate) fn authority_host(url: &str) -> (host: Option<Option<String>>)
    ensures
        host_text(host) == uri_host(url@),
{
    let uri = url.parse::<http::Uri>().ok()?;
    Some(uri.authority().map(|authority| authority.host().to_owned()))
}

/// `c` can follow a host in a URL: a colon before a port, or what starts a path, a query
/// or a fragment.
pub open spec fn ends_host(c: char) -> bool {
    c == ':' || c == '/' || c == '?' || c == '#'
}

/// `rest` can stand behind the origin of a URL: it is empty, or starts with a character
/// that ends the host. So the host before it is a whole host, not the start of a longer
/// name.
pub open spec fn follows_host(rest: Seq<char>) -> bool {
    rest.len() == 0 || ends_host(rest[0])
}

/// What a link is rewritten to, from the outcome of parsing it: nothing where it does not
/// parse; itself without the origin of its host, where the registry holds the host and
/// the link goes on behind that origin as behind a whole host; else itself.
pub open spec fn relativized_parsed(
    domains: Seq<Seq<char>>,
    url: Seq<char>,
    host: Option<Option<Seq<char>>>,
) -> Option<Seq<char>> {
    match host {
        None => None,
        Some(None) => Some(url),
        Some(Some(h)) => if domains.contains(h) && follows_host(without_origin(h, url)) {
            Some(without_origin(h, url))
        } else {
            Some(url)
        },
    }
}

/// What a link is rewritten to.
pub open spec fn relativized(domains: Seq<Seq<char>>, url: Seq<char>) -> Option<Seq<char>> {
    relativized_parsed(domains, url, uri_host(url))
}

/// Rewrites a link from the outcome of parsing it.
pub fn relativize_parsed(domains: &DomainSet, url: &str, host: Option<Option<String>>) -> (link:
    Option<String>)
    ensures
        text_of(link) == relativized_parsed(names(domains@), url@, host_text(host)),
{
    match host {
        None => None,
        Some(None) => Some(url.to_owned()),
        Some(Some(h)) => {
            if !contains_name(domains, h.as_str()) {
                return Some(url.to_owned());
            }
            let rest = strip_origin(h.as_str(), url);
            let whole = if rest.as_str().is_empty() {
                true
            } else {
                let next = rest.as_str().get_char(0);
                next == ':' || next == '/' || next == '?' || next == '#'
            };
            if whole {
                Some(rest)
            } else {
                Some(url.to_owned())
            }
        },
    }
}

/// `url` starts with `http://` or with `https://`.
pub open spec fn is_absolute(url: Seq<char>) -> bool {
    "http://"@.is_prefix_of(url) || "https://"@.is_prefix_of(url)
}

/// Rewrites a link to a first-party host into host-relative form.
///
/// A link that starts with neither `http://` nor `https://` comes back as it is, if it
/// parses.
pub fn relativize(domains: &DomainSet, url: &str) -> (link: Option<String>)
    ensures
        text_of(link) == relativized(names(domains@), url@),
        !is_absolute(url@) ==> (link matches Some(l) ==> l@ == url@),
{
    proof {
        if !is_absolute(url@) {
            lemma_relative_link_stays(names(domains@), url@);
        }
    }
    relativize_parsed(domains, url, authority_host(url))
}

/// Rewrites a link to a first-party host into host-relative form, and hands a link that
/// does not parse on as it is.
///
/// A link that starts with neither `http://` nor `https://` comes back as it is.
pub fn relativize_careful(domains: &DomainSet, url: &str) -> (link: String)
    ensures
        link@ == relativized_careful(names(domains@), url@),
        !is_absolute(url@) ==> link@ == url@,
{
    match relativize(domains, url) {
        Some(l) => l,
        None => url.to_owned(),
    }
}

/// What a link is rewritten to, a link that does not parse being handed on as it is.
pub open spec fn relativized_careful(domains: Seq<Seq<char>>, url: Seq<char>) -> Seq<char> {
    match relativized(domains, url) {
        Some(link) => link,
        None => url,
    }
}

/// A link that starts with neither `http://` nor `https://` is rewritten to itself,
/// whatever the registry holds and whatever the parser makes of the link.
pub proof fn lemma_relative_link_stays(domains: Seq<Seq<char>>, url: Seq<char>)
    requires
        !is_absolute(url),
    ensures
        relativized(domains, url) matches Some(link) ==> link == url,
        relativized_careful(domains, url) == url,
{
    assert forall|secure: bool, host: Seq<char>| !origin(secure, host).is_prefix_of(url) by {
        let scheme = if secure {
            "https://"@
        } else {
            "http://"@
        };
        if origin(secure, host).is_prefix_of(url) {
            assert(url.subrange(0, scheme.len() as int) =~= origin(secure, host).subrange(
                0,
                scheme.len() as int,
            ));
            assert(origin(secure, host).subrange(0, scheme.len() as int) =~= scheme);
        }
    }
}

/// A link that starts with the origin of a host that the registry holds, whose host is
/// that host, and which goes on behind the origin as behind a whole host, is rewritten
/// to exactly what follows the origin.
pub proof fn lemma_relativize_strips_origin(
    domains: Seq<Seq<char>>,
    secure: bool,
    host: Seq<char>,
    rest: Seq<char>,
)
    requires
        domains.contains(host),
        uri_host(origin(secure, host) + rest) == Some(Some(host)),
        follows_host(rest),
    ensures
        relativized(domains, origin(secure, host) + rest) == Some(rest),
{
    let url = origin(secure, host) + rest;
    reveal_strlit("https://");
    reveal_strlit("http://");
    assert("https://"@.len() == 8 && "http://"@.len() == 7);
    assert(url.subrange(0, origin(secure, host).len() as int) =~= origin(secure, host));
    assert(url.skip(origin(secure, host).len() as int) =~= rest);
    if !secure {
        if origin(true, host).is_prefix_of(url) {
            assert(url.subrange(0, origin(true, host).len() as int)[4] == url[4]);
            assert(origin(true, host)[4] == 's');
            assert(url[4] == ':');
        }
    }
}

/// Rewriting a link that has been rewritten changes nothing: what is left of a link
/// behind the origin of its host starts with no origin.
pub proof fn lemma_relativize_twice(domains: Seq<Seq<char>>, url: Seq<char>)
    ensures
        relativized_careful(domains, relativized_careful(domains, url)) == relativized_careful(
            domains,
            url,
        ),
{
    let once = relativized_careful(domains, url);
    if once != url {
        assert(follows_host(once));
        reveal_strlit("https://");
        reveal_strlit("http://");
        assert("https://"@.len() == 8 && "http://"@.len() == 7);
        assert("https://"@[0] == 'h' && "http://"@[0] == 'h');
        if is_absolute(once) {
            let scheme = if "http://"@.is_prefix_of(once) {
                "http://"@
            } else {
                "https://"@
            };
            assert(once.subrange(0, scheme.len() as int)[0] == scheme[0]);
        }
        lemma_relative_link_stays(domains, once);
    }
}

} // verus!
