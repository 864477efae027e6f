//! The first renderer of Philomena: Markdown to HTML with Philomena's markup, before
//! URLs were rewritten.

use crate::markdown::{markdown_to_html, page_html, Options, Rendering};
use vstd::prelude::*;

verus! {

/// The options of this renderer, as a mathematical value.
pub open spec fn common_rendering() -> Rendering {
    Rendering {
        autolink: true,
        table: true,
        description_lists: true,
        superscript: true,
        strikethrough: true,
        underline: false,
        spoiler: false,
        greentext: false,
        subscript: false,
        smart: true,
        ignore_setext: false,
        hardbreaks: true,
        github_pre_lang: true,
        escape: false,
        ignore_empty_links: false,
        philomena: true,
        image_urls: None,
        link_urls: None,
    }
}

/// The options of this renderer, but for how raw HTML in the text is treated.
pub fn common_options() -> (options: Options<'static>)
    ensures
        options@ == common_rendering(),
{
    Options {
        autolink: true,
        table: true,
        description_lists: true,
        superscript: true,
        strikethrough: true,
        philomena: true,
        smart: true,
        hardbreaks: true,
        github_pre_lang: true,
        underline: false,
        spoiler: false,
        greentext: false,
        subscript: false,
        ignore_setext: false,
        escape: false,
        ignore_empty_links: false,
        image_urls: None,
        link_urls: None,
    }
}

/// Renders Markdown to HTML, with raw HTML in the text escaped.
pub fn to_html(input: String) -> (html: String)
    ensures
        html@ == page_html(input@, Rendering { escape: true, ..common_rendering() }),
{
    let mut options = common_options();
    options.escape = true;
    markdown_to_html(input.as_str(), &options)
}

} // verus!
