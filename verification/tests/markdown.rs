use philomena::camo::CamoConfig;
use philomena::domains;
use philomena::markdown::{
    any_subscript, common_options, has_subscript, markdown_to_html, migration_options,
    philomena_markup, to_cm, to_html, NodeKind, Options,
};

fn camo() -> &'static CamoConfig {
    Box::leak(Box::new(CamoConfig {
        cdn_host: Some("cdn.example".to_string()),
        camo_host: "relay.example".to_string(),
        camo_key: "k".to_string(),
    }))
}

fn test_options<'a>() -> Options<'a> {
    let mut options = common_options(camo(), None);
    options.image_urls = None;
    options.link_urls = None;
    options
}

fn html(input: &str, expected: &str) {
    html_opts_w(input, expected, &test_options());
}

fn html_opts_i<'a, F>(input: &str, expected: &str, opts: F)
where
    F: Fn(&mut Options<'a>),
{
    let mut options = test_options();
    opts(&mut options);

    html_opts_w(input, expected, &options);
}

fn html_opts_w(input: &str, expected: &str, options: &Options) {
    let output = markdown_to_html(input, options);

    if output != expected {
        println!("Input:");
        println!("========================");
        println!("{}", input);
        println!("========================");
        println!("Expected:");
        println!("========================");
        println!("{}", expected);
        println!("========================");
        println!("Output:");
        println!("========================");
        println!("{}", output);
        println!("========================");
    }
    assert_eq!(output, expected);
}

#[test]
fn subscript() {
    html("H~2~O\n", "<div class=\"paragraph\">H<sub>2</sub>O</div>\n");
}

#[test]
fn subscript_autolink_interaction() {
    html(
        "https://example.com/search?q=1%2C2%2C3",
        "<div class=\"paragraph\"><a href=\"https://example.com/search?q=1%2C2%2C3\">https://example.com/search?q=1%2C2%2C3</a></div>\n"
    );
}

#[test]
fn spoiler() {
    html(
        "The ||dog dies at the end of Marley and Me||.\n",
        "<div class=\"paragraph\">The <span class=\"spoiler\">dog dies at the end of Marley and Me</span>.</div>\n",
    );
}

#[test]
fn spoiler_in_table() {
    html(
        "Text | Result\n--- | ---\n`||some clever text||` | ||some clever text||\n",
        &[
            "<table>\n",
            "<thead>\n",
            "<tr>\n",
            "<th>Text</th>\n",
            "<th>Result</th>\n",
            "</tr>\n",
            "</thead>\n",
            "<tbody>\n",
            "<tr>\n",
            "<td><code>||some clever text||</code></td>\n",
            "<td><span class=\"spoiler\">some clever text</span></td>\n",
            "</tr>\n",
            "</tbody>\n",
            "</table>\n",
        ]
        .concat(),
    );
}

#[test]
fn spoiler_regressions() {
    html(
        "|should not be spoiler|\n||should be spoiler||\n|||should be spoiler surrounded by pipes|||",
        &[
            "<div class=\"paragraph\">|should not be spoiler|<br />\n",
            "<span class=\"spoiler\">should be spoiler</span><br />\n",
            "|<span class=\"spoiler\">should be spoiler surrounded by pipes</span>|</div>\n",
        ]
        .concat(),
    );
}

#[test]
fn mismatched_spoilers() {
    html(
        "|||this is a spoiler with pipe in front||\n||this is not a spoiler|\n||this is a spoiler with pipe after|||",
        &[
            "<div class=\"paragraph\">|<span class=\"spoiler\">this is a spoiler with pipe in front</span><br />\n",
            "||this is not a spoiler|<br />\n",
            "<span class=\"spoiler\">this is a spoiler with pipe after</span>|</div>\n",
        ]
        .concat(),
    );
}

#[test]
fn underline() {
    html(
        "__underlined__\n",
        "<div class=\"paragraph\"><u>underlined</u></div>\n",
    );
}

#[test]
fn no_setext_headings_in_philomena() {
    html(
        "text text\n---",
        "<div class=\"paragraph\">text text</div>\n<hr />\n",
    );
}

#[test]
fn greentext_preserved() {
    // Philomena's own renderer keeps the two `>` under every option. The renderer at hand
    // keeps them where smart punctuation is off, and writes a guillemet where it is on.
    html_opts_i(
        ">implying\n>>implying",
        "<div class=\"paragraph\">&gt;implying<br />\n&gt;&gt;implying</div>\n",
        |opts| opts.smart = false,
    );
    html(
        ">implying\n>>implying",
        "<div class=\"paragraph\">&gt;implying<br />\n\u{bb}implying</div>\n",
    );
}

#[test]
fn separate_quotes_on_line_end() {
    // Philomena's own renderer ends the quote at the bare `>` and begins another:
    // "<blockquote>\n<div class=\"paragraph\">1</div>\n</blockquote>\n<div class=\"paragraph\">&gt;</div>\n<blockquote>\n<div class=\"paragraph\">2</div>\n</blockquote>\n"
    // The renderer at hand takes the bare `>` for an empty line of one quote.
    html(
        "> 1\n>\n> 2",
        "<blockquote>\n<div class=\"paragraph\">1</div>\n<div class=\"paragraph\">2</div>\n</blockquote>\n",
    );
}

#[test]
fn unnest_quotes_on_line_end() {
    html(
        "> 1\n> > 2\n> 1",
        "<blockquote>\n<div class=\"paragraph\">1</div>\n<blockquote>\n<div class=\"paragraph\">2</div>\n</blockquote>\n<div class=\"paragraph\">1</div>\n</blockquote>\n",
    );
}

#[test]
fn unnest_quotes_on_line_end_commonmark() {
    html(
        "> 1\n> > 2\n> \n> 1",
        "<blockquote>\n<div class=\"paragraph\">1</div>\n<blockquote>\n<div class=\"paragraph\">2</div>\n</blockquote>\n<div class=\"paragraph\">1</div>\n</blockquote>\n",
    );
}

#[test]
fn philomena_images() {
    html(
        "![full](http://example.com/image.png)",
        "<div class=\"paragraph\"><span class=\"imgspoiler\"><img src=\"http://example.com/image.png\" alt=\"full\" /></span></div>\n",
    );
}

#[test]
fn no_empty_link() {
    html_opts_i(
        "[](https://example.com/evil.domain.for.seo.spam)",
        "<div class=\"paragraph\">[](https://example.com/evil.domain.for.seo.spam)</div>\n",
        |opts| opts.autolink = false,
    );

    html_opts_i(
        "[    ](https://example.com/evil.domain.for.seo.spam)",
        "<div class=\"paragraph\">[    ](https://example.com/evil.domain.for.seo.spam)</div>\n",
        |opts| opts.autolink = false,
    );
}

#[test]
fn empty_image_allowed() {
    html(
        "![   ](https://example.com/evil.domain.for.seo.spam)",
        "<div class=\"paragraph\"><span class=\"imgspoiler\"><img src=\"https://example.com/evil.domain.for.seo.spam\" alt=\"   \" /></span></div>\n",
    );
}

#[test]
fn image_inside_link_allowed() {
    html(
        "[![](https://example.com/image.png)](https://example.com/)",
        "<div class=\"paragraph\"><a href=\"https://example.com/\"><span class=\"imgspoiler\"><img src=\"https://example.com/image.png\" alt=\"\" /></span></a></div>\n",
    );
}

#[test]
fn auto_relative_links() {
    let domains: Vec<String> = vec!["example.com".into()];
    assert_eq!(
        domains::relativize_careful(&domains, "https://example.com/some/path"),
        "/some/path"
    );

    html_opts_i(
        "[some link text](https://example.com/some/path)",
        "<div class=\"paragraph\"><a href=\"/some/path\">some link text</a></div>\n",
        |opts| {
            opts.link_urls = Some(&domains);
        },
    );

    html_opts_i(
        "https://example.com/some/path",
        "<div class=\"paragraph\"><a href=\"/some/path\">https://example.com/some/path</a></div>\n",
        |opts| {
            opts.link_urls = Some(&domains);
        },
    );

    html_opts_i(
        "[some link text](https://example.com/some/path?parameter=aaaaaa&other_parameter=bbbbbb#id12345)",
        "<div class=\"paragraph\"><a href=\"/some/path?parameter=aaaaaa&amp;other_parameter=bbbbbb#id12345\">some link text</a></div>\n",
        |opts| {
            opts.link_urls = Some(&domains);
        },
    );

    html_opts_i(
        "https://example.com/some/path?parameter=aaaaaa&other_parameter=bbbbbb#id12345",
        "<div class=\"paragraph\"><a href=\"/some/path?parameter=aaaaaa&amp;other_parameter=bbbbbb#id12345\">https://example.com/some/path?parameter=aaaaaa&amp;other_parameter=bbbbbb#id12345</a></div>\n",
        |opts| {
            opts.link_urls = Some(&domains);
        },
    );
}

#[test]
fn markup_rewrites_paragraph_tags_only() {
    assert_eq!(philomena_markup(""), "");
    assert_eq!(philomena_markup("<p>a</p>\n"), "<div class=\"paragraph\">a</div>\n");
    assert_eq!(
        philomena_markup("<p>a</p>\n<p>b</p>\n"),
        "<div class=\"paragraph\">a</div>\n<div class=\"paragraph\">b</div>\n"
    );
    assert_eq!(philomena_markup("<pre>x</pre><P>y</P>"), "<pre>x</pre><P>y</P>");
    assert_eq!(philomena_markup("<p"), "<p");
    assert_eq!(philomena_markup("</p"), "</p");
    assert_eq!(philomena_markup("&lt;p&gt;"), "&lt;p&gt;");
    assert_eq!(philomena_markup("<p>é</p>"), "<div class=\"paragraph\">é</div>");
}

#[test]
fn markup_wraps_each_image_tag() {
    assert_eq!(
        philomena_markup("<img src=\"a\" alt=\"\" />"),
        "<span class=\"imgspoiler\"><img src=\"a\" alt=\"\" /></span>"
    );
    assert_eq!(
        philomena_markup("<img src=\"a\" /><br /><img src=\"b\" />"),
        "<span class=\"imgspoiler\"><img src=\"a\" /></span><br /><span class=\"imgspoiler\"><img src=\"b\" /></span>"
    );
    // Inside an image tag nothing else is touched, and a tag that is not closed stays open.
    assert_eq!(
        philomena_markup("<img alt=\"<p>\" /><p>"),
        "<span class=\"imgspoiler\"><img alt=\"<p>\" /></span><div class=\"paragraph\">"
    );
    assert_eq!(philomena_markup("<img src=\"a\""), "<span class=\"imgspoiler\"><img src=\"a\"");
    assert_eq!(philomena_markup("<br /><hr />"), "<br /><hr />");
}

#[test]
fn without_the_markup_the_renderer_speaks() {
    let mut options = test_options();
    options.philomena = false;
    assert_eq!(markdown_to_html("H~2~O\n", &options), "<p>H<sub>2</sub>O</p>\n");
    assert_eq!(
        markdown_to_html("![full](http://example.com/image.png)", &options),
        "<p><img src=\"http://example.com/image.png\" alt=\"full\" /></p>\n"
    );
}

#[test]
fn each_switch_reaches_the_renderer() {
    let with = |change: fn(&mut Options)| {
        let mut options = test_options();
        options.philomena = false;
        change(&mut options);
        options
    };
    assert_eq!(markdown_to_html("~~a~~", &with(|o| o.strikethrough = false)), "<p>~~a~~</p>\n");
    assert_eq!(markdown_to_html("__a__", &with(|o| o.underline = false)), "<p><strong>a</strong></p>\n");
    assert_eq!(markdown_to_html("||a||", &with(|o| o.spoiler = false)), "<p>||a||</p>\n");
    assert_eq!(markdown_to_html("a^b^", &with(|o| o.superscript = false)), "<p>a^b^</p>\n");
    assert_eq!(markdown_to_html("a\nb", &with(|o| o.hardbreaks = false)), "<p>a\nb</p>\n");
    assert_eq!(markdown_to_html("a\n---", &with(|o| o.ignore_setext = false)), "<h2>a</h2>\n");
    assert_eq!(markdown_to_html("'a'", &with(|o| o.smart = false)), "<p>'a'</p>\n");
    assert_eq!(
        markdown_to_html("<b>a</b>", &with(|o| o.escape = false)),
        "<p><!-- raw HTML omitted -->a<!-- raw HTML omitted --></p>\n"
    );
    assert_eq!(markdown_to_html("<b>a</b>", &with(|_| ())), "<p>&lt;b&gt;a&lt;/b&gt;</p>\n");
    assert_eq!(
        markdown_to_html("[](https://example.com/)", &with(|o| o.ignore_empty_links = false)),
        "<p><a href=\"https://example.com/\"></a></p>\n"
    );
}

#[test]
fn to_html_rewrites_image_and_link_urls() {
    let domains: Vec<String> = vec!["example.com".into()];
    assert_eq!(
        to_html("![x](https://evil.example/x.png)", camo(), Some(&domains)),
        "<div class=\"paragraph\"><span class=\"imgspoiler\"><img src=\"https://relay.example/rqhPudun1X4zlMqEQPMIELC5qxw/aHR0cHM6Ly9ldmlsLmV4YW1wbGUveC5wbmc\" alt=\"x\" /></span></div>\n"
    );
    assert_eq!(
        to_html("![x](http://cdn.example/x.png)", camo(), None),
        "<div class=\"paragraph\"><span class=\"imgspoiler\"><img src=\"https://cdn.example/x.png\" alt=\"x\" /></span></div>\n"
    );
    assert_eq!(
        to_html("[a](https://example.com/b) [c](https://example.org/d)", camo(), Some(&domains)),
        "<div class=\"paragraph\"><a href=\"/b\">a</a> <a href=\"https://example.org/d\">c</a></div>\n"
    );
    assert_eq!(
        to_html("[a](https://example.com/b)", camo(), None),
        "<div class=\"paragraph\"><a href=\"https://example.com/b\">a</a></div>\n"
    );
}

#[test]
fn common_options_switch_everything_on() {
    let domains: Vec<String> = vec!["example.com".into()];
    let options = common_options(camo(), Some(&domains));
    assert!(options.autolink && options.table && options.description_lists);
    assert!(options.superscript && options.strikethrough && options.underline);
    assert!(options.spoiler && options.greentext && options.subscript);
    assert!(options.smart && options.ignore_setext && options.hardbreaks);
    assert!(options.github_pre_lang && options.escape && options.ignore_empty_links);
    assert!(options.philomena);
    assert_eq!(options.image_urls.map(|c| c.camo_host.as_str()), Some("relay.example"));
    assert_eq!(options.link_urls, Some(&domains));
    assert!(common_options(camo(), None).link_urls.is_none());
}

#[test]
fn migration_options_switch_subscript_off() {
    let options = migration_options(camo(), None);
    assert!(!options.subscript);
    assert!(options.strikethrough && options.superscript && options.philomena);
    assert!(options.image_urls.is_some());
}

#[test]
fn old_text_is_written_out_as_commonmark() {
    assert_eq!(to_cm("plain *text*\n", camo(), None), "plain *text*\n");
    assert_eq!(to_cm("H~2~O", camo(), None), "H~~2~~O\n");
    assert_eq!(to_cm("* a\n* b", camo(), None), "- a\n- b\n");
}

#[test]
fn tildes_in_old_text_are_found() {
    assert!(has_subscript("H~2~O", camo(), None));
    assert!(has_subscript("some ~~struck~~ text", camo(), None));
    assert!(has_subscript("> quoted\n>\n> * item with ~tilde~", camo(), None));
    assert!(!has_subscript("plain *text* with ^superscript^", camo(), None));
    assert!(!has_subscript("a ~ b", camo(), None));
    assert!(!has_subscript("", camo(), None));
}

#[test]
fn any_subscript_looks_at_every_kind() {
    assert!(!any_subscript(&vec![]));
    assert!(!any_subscript(&vec![NodeKind::Other, NodeKind::Other]));
    assert!(any_subscript(&vec![NodeKind::Other, NodeKind::Other, NodeKind::Subscript]));
    assert!(any_subscript(&vec![NodeKind::Strikethrough, NodeKind::Other]));
}
