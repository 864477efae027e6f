//! The renderer of Furbooru: Markdown to HTML, with `>>` and a number turned into a link
//! to the image of that number.

use crate::markdown::{markdown_to_html, page_html, Options, Rendering};
use crate::text::{chars_of, push_char, push_range, replace_all, replaced, starts_with_at};
use vstd::prelude::*;
use vstd::string::*;

verus! {

/// The two `>` of a mention, as they stand in HTML.
pub open spec fn marker() -> Seq<char> {
    "&gt;&gt;"@
}

/// `c` is one of the ten digits.
pub open spec fn is_digit(c: char) -> bool {
    '0' <= c <= '9'
}

/// `c` is one of the characters that ask for a size of preview.
pub open spec fn is_size(c: char) -> bool {
    c == '|' || c == 't' || c == 's' || c == 'p'
}

/// How many digits stand in `text` from index `at` on, without a gap.
pub open spec fn digits_at(text: Seq<char>, at: int) -> int
    decreases text.len() - at,
{
    if 0 <= at < text.len() && is_digit(text[at]) {
        1 + digits_at(text, at + 1)
    } else {
        0
    }
}

/// The index behind the number of the mention at `at`.
pub open spec fn number_end(text: Seq<char>, at: int) -> int {
    at + marker().len() + digits_at(text, at + marker().len())
}

/// A mention stands in `text` at index `at`: the marker and at least one digit.
pub open spec fn mention_at(text: Seq<char>, at: int) -> bool {
    0 <= at <= text.len() && marker().is_prefix_of(text.skip(at)) && digits_at(
        text,
        at + marker().len(),
    ) > 0
}

/// The number of the mention at `at`.
pub open spec fn number_at(text: Seq<char>, at: int) -> Seq<char> {
    text.subrange(at + marker().len(), number_end(text, at))
}

/// The mention at `at` asks for a size: a size character follows its number.
pub open spec fn sized_at(text: Seq<char>, at: int) -> bool {
    number_end(text, at) < text.len() && is_size(text[number_end(text, at)])
}

/// The index behind the mention at `at`, a size character included.
pub open spec fn mention_end(text: Seq<char>, at: int) -> int {
    if sized_at(text, at) {
        number_end(text, at) + 1
    } else {
        number_end(text, at)
    }
}

/// The index of the first mention at or behind `at`, if there is one.
pub open spec fn first_mention(text: Seq<char>, at: int) -> Option<int>
    decreases text.len() - at,
{
    if at < 0 || at >= text.len() {
        None
    } else if mention_at(text, at) {
        Some(at)
    } else {
        first_mention(text, at + 1)
    }
}

/// The link that stands for a mention of the image `number`.
pub open spec fn link(number: Seq<char>) -> Seq<char> {
    "<a href=\"/images/"@ + number + "\">&gt;&gt;"@ + number + "</a>"@
}

/// What follows index `at` of `text`, with a link in place of each mention, its size
/// character included.
pub open spec fn linked_from(text: Seq<char>, at: int) -> Seq<char>
    decreases text.len() - at,
    via linked_from_ends
{
    if at < 0 || at >= text.len() {
        Seq::<char>::empty()
    } else if mention_at(text, at) {
        link(number_at(text, at)) + linked_from(text, mention_end(text, at))
    } else {
        seq![text[at]] + linked_from(text, at + 1)
    }
}

#[via_fn]
proof fn linked_from_ends(text: Seq<char>, at: int) {
    if 0 <= at < text.len() && mention_at(text, at) {
        lemma_digits_at(text, at + marker().len());
    }
}

/// `html` with its mentions linked: every mention becomes a link, unless there is none or
/// the first one asks for a size; then `html` stays as it is.
pub open spec fn with_mentions(html: Seq<char>) -> Seq<char> {
    match first_mention(html, 0) {
        Some(at) => if sized_at(html, at) {
            html
        } else {
            linked_from(html, 0)
        },
        None => html,
    }
}

/// The digits from `at` on stay within the text.
pub proof fn lemma_digits_at(text: Seq<char>, at: int)
    requires
        0 <= at <= text.len(),
    ensures
        0 <= digits_at(text, at) <= text.len() - at,
        forall|i: int| at <= i < at + digits_at(text, at) ==> is_digit(#[trigger] text[i]),
        at + digits_at(text, at) < text.len() ==> !is_digit(text[at + digits_at(text, at)]),
    decreases text.len() - at,
{
    if at < text.len() && is_digit(text[at]) {
        lemma_digits_at(text, at + 1);
    }
}

/// Counts the digits that stand in `chars` from `at` on.
fn count_digits(chars: &Vec<char>, at: usize) -> (count: usize)
    requires
        at <= chars@.len(),
    ensures
        count == digits_at(chars@, at as int),
        at + count <= chars@.len(),
{
    let mut end: usize = at;
    while end < chars.len() && '0' <= chars[end] && chars[end] <= '9'
        invariant
            at <= end <= chars@.len(),
            digits_at(chars@, at as int) == (end - at) + digits_at(chars@, end as int),
        decreases chars@.len() - end,
    {
        end += 1;
    }
    end - at
}

/// Reads the mention that stands in `chars` at `at`, if one does: where its number ends,
/// and whether it asks for a size.
fn mention(chars: &Vec<char>, at: usize, mark: &Vec<char>) -> (found: Option<(usize, bool)>)
    requires
        at <= chars@.len(),
        mark@ == marker(),
    ensures
        found is Some <==> mention_at(chars@, at as int),
        found matches Some((end, sized)) ==> end == number_end(chars@, at as int) && sized
            == sized_at(chars@, at as int) && at < end <= chars@.len() && end - at >= mark@.len(),
{
    if !starts_with_at(chars, at, mark) {
        return None;
    }
    assert(mark@.len() <= chars@.skip(at as int).len() <= chars.len());
    let start = at + mark.len();
    let count = count_digits(chars, start);
    if count == 0 {
        return None;
    }
    let end = start + count;
    let sized = end < chars.len() && (chars[end] == '|' || chars[end] == 't' || chars[end] == 's'
        || chars[end] == 'p');
    Some((end, sized))
}

/// Whether the first mention of `chars` asks for a size, if there is a mention.
fn first_mention_sized(chars: &Vec<char>, mark: &Vec<char>) -> (sized: Option<bool>)
    requires
        mark@ == marker(),
    ensures
        sized is Some <==> first_mention(chars@, 0) is Some,
        sized matches Some(s) ==> s == sized_at(chars@, first_mention(chars@, 0)->0),
{
    let mut i: usize = 0;
    while i < chars.len()
        invariant
            i <= chars@.len(),
            mark@ == marker(),
            first_mention(chars@, 0) == first_mention(chars@, i as int),
        decreases chars@.len() - i,
    {
        match mention(chars, i, mark) {
            Some((_, sized)) => {
                return Some(sized);
            },
            None => {},
        }
        i += 1;
    }
    None
}

/// Turns the mentions of rendered HTML into links: every one of them, unless there is
/// none or the first one asks for a size.
pub fn link_mentions(html: &str) -> (linked: String)
    ensures
        linked@ == with_mentions(html@),
{
    let chars = chars_of(html);
    let mark = chars_of("&gt;&gt;");
    match first_mention_sized(&chars, &mark) {
        Some(false) => {},
        _ => {
            return html.to_owned();
        },
    }
    let n = chars.len();
    let mut linked = String::new();
    let mut i: usize = 0;
    while i < n
        invariant
            n == chars@.len(),
            chars@ == html@,
            mark@ == marker(),
            i <= n,
            linked_from(html@, 0) == linked@ + linked_from(html@, i as int),
        decreases n - i,
    {
        let ghost before = linked@;
        match mention(&chars, i, &mark) {
            Some((end, sized)) => {
                linked.append("<a href=\"/images/");
                push_range(&mut linked, &chars, i + mark.len(), end);
                linked.append("\">&gt;&gt;");
                push_range(&mut linked, &chars, i + mark.len(), end);
                linked.append("</a>");
                let next = if sized {
                    end + 1
                } else {
                    end
                };
                assert(linked@ + linked_from(html@, next as int) =~= before + linked_from(
                    html@,
                    i as int,
                ));
                i = next;
            },
            None => {
                push_char(&mut linked, chars[i]);
                assert(linked@ + linked_from(html@, i + 1) =~= before + linked_from(
                    html@,
                    i as int,
                ));
                i += 1;
            },
        }
    }
    assert(linked@ + Seq::<char>::empty() =~= linked@);
    linked
}

/// The options that Furbooru renders with, as a mathematical value.
pub open spec fn furbooru_rendering() -> Rendering {
    Rendering {
        autolink: true,
        table: true,
        description_lists: true,
        superscript: true,
        strikethrough: true,
        underline: false,
        spoiler: true,
        greentext: false,
        subscript: true,
        smart: true,
        ignore_setext: false,
        hardbreaks: true,
        github_pre_lang: true,
        escape: true,
        ignore_empty_links: false,
        philomena: false,
        image_urls: None,
        link_urls: None,
    }
}

/// The options that Furbooru renders with.
pub fn furbooru_options() -> (options: Options<'static>)
    ensures
        options@ == furbooru_rendering(),
{
    Options {
        autolink: true,
        table: true,
        description_lists: true,
        superscript: true,
        subscript: true,
        spoiler: true,
        strikethrough: true,
        smart: true,
        hardbreaks: true,
        github_pre_lang: true,
        escape: true,
        underline: false,
        greentext: false,
        ignore_setext: false,
        ignore_empty_links: false,
        philomena: false,
        image_urls: None,
        link_urls: None,
    }
}

/// Renders Markdown to HTML for Furbooru: `>>` is written as it stands in HTML before
/// the text is rendered, and the mentions of the result are linked.
pub fn to_html(input: String) -> (html: String)
    ensures
        html@ == with_mentions(
            page_html(replaced(input@, ">>"@, "&gt;&gt;"@), furbooru_rendering()),
        ),
{
    let text = replace_all(input.as_str(), ">>", "&gt;&gt;");
    let options = furbooru_options();
    let result = markdown_to_html(text.as_str(), &options);
    link_mentions(result.as_str())
}

} // verus!
