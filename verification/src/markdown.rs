//! Markdown to HTML: the options that Philomena renders with, the call into the renderer,
//! and the markup that Philomena's pages expect around paragraphs and images.

use crate::camo::{image_url_careful, CamoConfig, CamoSettings};
use crate::domains::{names, relativize_careful, DomainSet};
use crate::text::{chars_of, opens_with, push_char, starts_with_at};
use comrak::nodes::NodeValue;
use comrak::options::{Extension, Parse, Render};
use std::sync::Arc;
use vstd::prelude::*;
use vstd::string::*;

verus! {

/// `html` with Philomena's markup: each `<p>` becomes `<div class="paragraph">`, each
/// `</p>` becomes `</div>`, and each `<img` tag, up to the `/>` that closes it, is put
/// inside `<span class="imgspoiler">`. With `in_image`, `html` starts inside an `<img` tag.
pub open spec fn marked_up(html: Seq<char>, in_image: bool) -> Seq<char>
    decreases html.len(),
{
    if html.len() == 0 {
        html
    } else if in_image {
        if opens_with(html, "/>"@) {
            "/></span>"@ + marked_up(html.skip("/>"@.len() as int), false)
        } else {
            seq![html[0]] + marked_up(html.skip(1), true)
        }
    } else if opens_with(html, "<p>"@) {
        "<div class=\"paragraph\">"@ + marked_up(html.skip("<p>"@.len() as int), false)
    } else if opens_with(html, "</p>"@) {
        "</div>"@ + marked_up(html.skip("</p>"@.len() as int), false)
    } else if opens_with(html, "<img"@) {
        "<span class=\"imgspoiler\"><img"@ + marked_up(html.skip("<img"@.len() as int), true)
    } else {
        seq![html[0]] + marked_up(html.skip(1), false)
    }
}

/// Puts Philomena's markup around the paragraphs and images of rendered HTML.
pub fn philomena_markup(html: &str) -> (marked: String)
    ensures
        marked@ == marked_up(html@, false),
{
    let chars = chars_of(html);
    let paragraph = chars_of("<p>");
    let paragraph_end = chars_of("</p>");
    let image = chars_of("<img");
    let image_end = chars_of("/>");
    proof {
        reveal_strlit("<p>");
        reveal_strlit("</p>");
        reveal_strlit("<img");
        reveal_strlit("/>");
    }
    let n = chars.len();
    let mut marked = String::new();
    let mut in_image = false;
    let mut i: usize = 0;
    assert(html@.skip(0) =~= html@);
    while i < n
        invariant
            n == chars@.len(),
            chars@ == html@,
            i <= n,
            paragraph@ == "<p>"@,
            paragraph_end@ == "</p>"@,
            image@ == "<img"@,
            image_end@ == "/>"@,
            "<p>"@.len() == 3,
            "</p>"@.len() == 4,
            "<img"@.len() == 4,
            "/>"@.len() == 2,
            marked_up(html@, false) == marked@ + marked_up(html@.skip(i as int), in_image),
        decreases n - i,
    {
        let ghost rest = html@.skip(i as int);
        let ghost before = marked@;
        let ghost was_in_image = in_image;
        let step: usize;
        if in_image {
            if starts_with_at(&chars, i, &image_end) {
                marked.append("/></span>");
                in_image = false;
                step = 2;
            } else {
                push_char(&mut marked, chars[i]);
                step = 1;
            }
        } else if starts_with_at(&chars, i, &paragraph) {
            marked.append("<div class=\"paragraph\">");
            step = 3;
        } else if starts_with_at(&chars, i, &paragraph_end) {
            marked.append("</div>");
            step = 4;
        } else if starts_with_at(&chars, i, &image) {
            marked.append("<span class=\"imgspoiler\"><img");
            in_image = true;
            step = 4;
        } else {
            push_char(&mut marked, chars[i]);
            step = 1;
        }
        proof {
            assert(rest.skip(step as int) =~= html@.skip(i + step));
            assert(before.push(rest[0]) =~= before + seq![rest[0]]);
            assert(marked@ + marked_up(rest.skip(step as int), in_image) =~= before + marked_up(
                rest,
                was_in_image,
            ));
        }
        i += step;
    }
    assert(marked@ + Seq::<char>::empty() =~= marked@);
    marked
}

/// How Markdown is read and written. The switches bear the names that the renderer
/// gives them.
#[derive(Clone, Copy, Debug)]
pub struct Options<'a> {
    pub autolink: bool,
    pub table: bool,
    pub description_lists: bool,
    pub superscript: bool,
    pub strikethrough: bool,
    pub underline: bool,
    pub spoiler: bool,
    pub greentext: bool,
    pub subscript: bool,
    pub smart: bool,
    pub ignore_setext: bool,
    pub hardbreaks: bool,
    pub github_pre_lang: bool,
    pub escape: bool,
    pub ignore_empty_links: bool,
    /// Whether the rendered HTML gets Philomena's markup.
    pub philomena: bool,
    /// Where set, the URL of every image goes through `image_url_careful`.
    pub image_urls: Option<&'a CamoConfig>,
    /// Where set, the URL of every link goes through `relativize_careful`.
    pub link_urls: Option<&'a DomainSet>,
}

/// The mathematical value of an `Options`.
pub struct Rendering {
    pub autolink: bool,
    pub table: bool,
    pub description_lists: bool,
    pub superscript: bool,
    pub strikethrough: bool,
    pub underline: bool,
    pub spoiler: bool,
    pub greentext: bool,
    pub subscript: bool,
    pub smart: bool,
    pub ignore_setext: bool,
    pub hardbreaks: bool,
    pub github_pre_lang: bool,
    pub escape: bool,
    pub ignore_empty_links: bool,
    pub philomena: bool,
    pub image_urls: Option<CamoSettings>,
    pub link_urls: Option<Seq<Seq<char>>>,
}

impl<'a> View for Options<'a> {
    type V = Rendering;

    open spec fn view(&self) -> Rendering {
        Rendering {
            autolink: self.autolink,
            table: self.table,
            description_lists: self.description_lists,
            superscript: self.superscript,
            strikethrough: self.strikethrough,
            underline: self.underline,
            spoiler: self.spoiler,
            greentext: self.greentext,
            subscript: self.subscript,
            smart: self.smart,
            ignore_setext: self.ignore_setext,
            hardbreaks: self.hardbreaks,
            github_pre_lang: self.github_pre_lang,
            escape: self.escape,
            ignore_empty_links: self.ignore_empty_links,
            philomena: self.philomena,
            image_urls: match self.image_urls {
                Some(camo) => Some(camo@),
                None => None,
            },
            link_urls: match self.link_urls {
                Some(domains) => Some(names(domains@)),
                None => None,
            },
        }
    }
}

/// The HTML that the renderer makes of `input` under `options`.
pub uninterp spec fn rendered_html(input: Seq<char>, options: Rendering) -> Seq<char>;

/// Calls `comrak::markdown_to_html`, with the renderer's options set field by field from
/// `options` and its two URL rewriters set to this library's. The contract names the
/// result.
#[verifier::external_body]
pub(crate) fn render_html(input: &str, options: &Options) -> (html: String)
    ensures
        html@ == rendered_html(input@, options@),
{
    let &Options {
        autolink, table, description_lists, superscript, strikethrough, underline, spoiler,
        greentext, subscript, smart, ignore_setext, hardbreaks, github_pre_lang, escape,
        ignore_empty_links, image_urls, link_urls, ..
    } = options;
    let extension = Extension {
        autolink, table, description_lists, superscript, strikethrough, underline, spoiler,
        greentext, subscript,
        image_url_rewriter: image_urls.map(|c| Arc::new(move |u: &str| image_url_careful(c, u)) as _),
        link_url_rewriter: link_urls.map(|d| Arc::new(move |u: &str| relativize_careful(d, u)) as _),
        ..Default::default()
    };
    let parse = Parse { smart, ignore_setext, ..Default::default() };
    let render = Render { hardbreaks, github_pre_lang, escape, ignore_empty_links, ..Default::default() };
    comrak::markdown_to_html(input, &comrak::Options { extension, parse, render })
}

/// The HTML of a page: what the renderer makes of `input`, with Philomena's markup where
/// the options ask for it.
pub open spec fn page_html(input: Seq<char>, options: Rendering) -> Seq<char> {
    if options.philomena {
        marked_up(rendered_html(input, options), false)
    } else {
        rendered_html(input, options)
    }
}

/// Renders Markdown to HTML under `options`.
pub fn markdown_to_html(input: &str, options: &Options) -> (html: String)
    ensures
        html@ == page_html(input@, options@),
{
    let html = render_html(input, options);
    if options.philomena {
        philomena_markup(html.as_str())
    } else {
        html
    }
}

/// The options that Philomena renders with, as a mathematical value.
pub open spec fn common_rendering(
    image_urls: Option<CamoSettings>,
    link_urls: Option<Seq<Seq<char>>>,
) -> Rendering {
    Rendering {
        autolink: true,
        table: true,
        description_lists: true,
        superscript: true,
        strikethrough: true,
        underline: true,
        spoiler: true,
        greentext: true,
        subscript: true,
        smart: true,
        ignore_setext: true,
        hardbreaks: true,
        github_pre_lang: true,
        escape: true,
        ignore_empty_links: true,
        philomena: true,
        image_urls,
        link_urls,
    }
}

/// The registry's names, where there is a registry.
pub open spec fn registry_names(domains: Option<&DomainSet>) -> Option<Seq<Seq<char>>> {
    match domains {
        Some(d) => Some(names(d@)),
        None => None,
    }
}

/// The options that Philomena renders with: every switch on, image URLs rewritten under
/// `camo`, and link URLs rewritten where there is a registry.
pub fn common_options<'a>(camo: &'a CamoConfig, domains: Option<&'a DomainSet>) -> (options:
    Options<'a>)
    ensures
        options@ == common_rendering(Some(camo@), registry_names(domains)),
{
    Options {
        // What the renderer offers of itself.
        autolink: true,
        table: true,
        description_lists: true,
        superscript: true,
        strikethrough: true,
        smart: true,
        hardbreaks: true,
        github_pre_lang: true,
        escape: true,
        // What Philomena adds.
        underline: true,
        spoiler: true,
        greentext: true,
        subscript: true,
        philomena: true,
        ignore_empty_links: true,
        ignore_setext: true,
        image_urls: Some(camo),
        link_urls: domains,
    }
}

/// Renders Markdown to the HTML of a Philomena page.
pub fn to_html(input: &str, camo: &CamoConfig, domains: Option<&DomainSet>) -> (html: String)
    ensures
        html@ == page_html(input@, common_rendering(Some(camo@), registry_names(domains))),
{
    let options = common_options(camo, domains);
    markdown_to_html(input, &options)
}

/// The options for texts written before subscript had a syntax of its own, as a
/// mathematical value: Philomena's, with subscript switched off.
pub open spec fn migration_rendering(
    image_urls: Option<CamoSettings>,
    link_urls: Option<Seq<Seq<char>>>,
) -> Rendering {
    Rendering { subscript: false, ..common_rendering(image_urls, link_urls) }
}

/// The options for texts written before subscript had a syntax of its own.
pub fn migration_options<'a>(camo: &'a CamoConfig, domains: Option<&'a DomainSet>) -> (options:
    Options<'a>)
    ensures
        options@ == migration_rendering(Some(camo@), registry_names(domains)),
{
    let mut options = common_options(camo, domains);
    options.subscript = false;
    options
}

/// The CommonMark that the renderer makes of `input` under `options`.
pub uninterp spec fn rendered_commonmark(input: Seq<char>, options: Rendering) -> Seq<char>;

/// Calls `comrak::markdown_to_commonmark`, with the renderer's options set field by field
/// from `options`. The contract names the result.
#[verifier::external_body]
pub(crate) fn render_commonmark(input: &str, options: &Options) -> (text: String)
    ensures
        text@ == rendered_commonmark(input@, options@),
{
    let &Options {
        autolink, table, description_lists, superscript, strikethrough, underline, spoiler,
        greentext, subscript, smart, ignore_setext, hardbreaks, github_pre_lang, escape,
        ignore_empty_links, ..
    } = options;
    let extension = Extension {
        autolink, table, description_lists, superscript, strikethrough, underline, spoiler,
        greentext, subscript, ..Default::default()
    };
    let parse = Parse { smart, ignore_setext, ..Default::default() };
    let render = Render { hardbreaks, github_pre_lang, escape, ignore_empty_links, ..Default::default() };
    comrak::markdown_to_commonmark(input, &comrak::Options { extension, parse, render })
}

/// Writes an old text out again as CommonMark.
pub fn to_cm(input: &str, camo: &CamoConfig, domains: Option<&DomainSet>) -> (text: String)
    ensures
        text@ == rendered_commonmark(
            input@,
            migration_rendering(Some(camo@), registry_names(domains)),
        ),
{
    let options = migration_options(camo, domains);
    render_commonmark(input, &options)
}

/// What a node of a parsed document is, as far as this library asks.
#[derive(Clone, Copy, Debug, PartialEq, Eq, Structural)]
pub enum NodeKind {
    Subscript,
    Strikethrough,
    Other,
}

/// The kinds of the nodes of the document that the renderer parses `input` to under
/// `options`, each parent before its children.
pub uninterp spec fn document_kinds(input: Seq<char>, options: Rendering) -> Seq<NodeKind>;

/// Calls `comrak::parse_document` on a fresh arena, with the renderer's options for
/// syntax and parsing set field by field from `options`, and maps each node that
/// `descendants` yields to its kind. The contract names the result.
#[verifier::external_body]
pub(crate) fn node_kinds(input: &str, options: &Options) -> (kinds: Vec<NodeKind>)
    ensures
        kinds@ == document_kinds(input@, options@),
{
    let &Options {
        autolink, table, description_lists, superscript, strikethrough, underline, spoiler,
        greentext, subscript, smart, ignore_setext, ..
    } = options;
    let parse = Parse { smart, ignore_setext, ..Default::default() };
    let extension = Extension {
        autolink, table, description_lists, superscript, strikethrough, underline, spoiler,
        greentext, subscript, ..Default::default() };
    let native = comrak::Options { extension, parse, ..Default::default() };
    let arena = comrak::Arena::new();
    comrak::parse_document(&arena, input, &native).descendants().map(|node| match node.data().value {
        NodeValue::Subscript => NodeKind::Subscript,
        NodeValue::Strikethrough => NodeKind::Strikethrough,
        _ => NodeKind::Other,
    }).collect()
}

/// One of `kinds` is subscript or strikethrough.
pub open spec fn marks_subscript(kinds: Seq<NodeKind>) -> bool {
    exists|i: int|
        0 <= i < kinds.len() && (kinds[i] == NodeKind::Subscript || kinds[i]
            == NodeKind::Strikethrough)
}

/// Whether a document with nodes of these kinds holds subscript or strikethrough.
pub fn any_subscript(kinds: &Vec<NodeKind>) -> (found: bool)
    ensures
        found == marks_subscript(kinds@),
{
    let mut i: usize = 0;
    while i < kinds.len()
        invariant
            i <= kinds.len(),
            forall|j: int| 0 <= j < i ==> kinds@[j] == NodeKind::Other,
        decreases kinds.len() - i,
    {
        match kinds[i] {
            NodeKind::Subscript | NodeKind::Strikethrough => {
                return true;
            },
            NodeKind::Other => {},
        }
        i += 1;
    }
    false
}

/// Whether an old text, parsed under the options for old texts, holds subscript or
/// strikethrough.
pub fn has_subscript(input: &str, camo: &CamoConfig, domains: Option<&DomainSet>) -> (found: bool)
    ensures
        found == marks_subscript(
            document_kinds(input@, migration_rendering(Some(camo@), registry_names(domains))),
        ),
{
    let options = migration_options(camo, domains);
    let kinds = node_kinds(input, &options);
    any_subscript(&kinds)
}

} // verus!
