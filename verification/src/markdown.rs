//! Markdown to HTML, by `pulldown_cmark`.

use vstd::prelude::*;

verus! {

/// The extensions to CommonMark that a rendering admits.
#[derive(Clone, Copy, Debug, PartialEq, Eq)]
pub struct MarkdownOptions {
    pub tables: bool,
    pub footnotes: bool,
    pub strikethrough: bool,
}

/// The HTML that `pulldown_cmark` writes for the markdown text `md`, with
/// tables, footnotes and strikethrough switched on or off.
pub uninterp spec fn markdown_html(
    md: Seq<char>,
    tables: bool,
    footnotes: bool,
    strikethrough: bool,
) -> Seq<char>;

/// Renders markdown by `pulldown_cmark::Parser::new_ext` and
/// `pulldown_cmark::html::push_html`, with `ENABLE_TABLES`,
/// `ENABLE_FOOTNOTES` and `ENABLE_STRIKETHROUGH` set as the arguments say.
/// The result depends on the arguments alone; the contract gives it a name
/// and says no more of it.
#[verifier::external_body]
fn push_markdown_html(md: &str, tables: bool, footnotes: bool, strikethrough: bool) -> (html:
    String)
    ensures
        html@ == markdown_html(md@, tables, footnotes, strikethrough),
{
    let mut options = pulldown_cmark::Options::empty();
    options.set(pulldown_cmark::Options::ENABLE_TABLES, tables);
    options.set(pulldown_cmark::Options::ENABLE_FOOTNOTES, footnotes);
    options.set(pulldown_cmark::Options::ENABLE_STRIKETHROUGH, strikethrough);
    let mut html = String::new();
    pulldown_cmark::html::push_html(&mut html, pulldown_cmark::Parser::new_ext(md, options));
    html
}

/// The options that posts are rendered with: tables, footnotes and
/// strikethrough, all three.
pub fn get_md_opts() -> (options: MarkdownOptions)
    ensures
        options.tables,
        options.footnotes,
        options.strikethrough,
{
    MarkdownOptions { tables: true, footnotes: true, strikethrough: true }
}

/// The HTML of the markdown text `md`.
pub fn md_to_html(md: &str, opts: MarkdownOptions) -> (html: String)
    ensures
        html@ == markdown_html(md@, opts.tables, opts.footnotes, opts.strikethrough),
{
    push_markdown_html(md, opts.tables, opts.footnotes, opts.strikethrough)
}

} // verus!
