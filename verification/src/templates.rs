//! The templates of the site, compiled once by `liquid`, and the one way
//! to render through them.

use vstd::prelude::*;
use crate::text::pair_views;

verus! {

/// `liquid::Template`, a compiled template. Nothing is known of what it
/// holds.
#[verifier::external_type_specification]
#[verifier::external_body]
pub struct ExTemplate(liquid::Template);

/// `liquid::Parser`, which compiles templates. Nothing is known of what it
/// holds.
#[verifier::external_type_specification]
#[verifier::external_body]
pub struct ExParser(liquid::Parser);

/// `liquid::Error`, the error of compiling and of rendering. Nothing is
/// known of what it holds.
#[verifier::external_type_specification]
#[verifier::external_body]
pub struct ExError(liquid::Error);

/// The names and values that a template is rendered with.
pub type Globals = Vec<(String, String)>;

/// The fixed text blocks of the site, which no template engine reads.
#[derive(Clone, Debug, PartialEq, Eq)]
pub struct TemplateBlockStrings {
    pub about: String,
    pub header: String,
    pub notfound: String,
}

/// The sources of the page templates.
#[derive(Clone, Debug, PartialEq, Eq)]
pub struct TemplatePageStrings {
    pub about: String,
    pub atom: String,
    pub generic: String,
    pub index: String,
    pub post: String,
}

/// The sources of the snippet templates.
#[derive(Clone, Debug, PartialEq, Eq)]
pub struct TemplateSnippetStrings {
    pub atom_entry: String,
    pub footer_common: String,
    pub footer_nav_content: String,
    pub footer_nav: String,
    pub head: String,
    pub index_content: String,
    pub posts_content: String,
    pub posts_post: String,
    pub tag_link: String,
    pub tag_posts: String,
}

/// The sources of all templates and blocks.
#[derive(Clone, Debug, PartialEq, Eq)]
pub struct TemplateStrings {
    pub blocks: TemplateBlockStrings,
    pub pages: TemplatePageStrings,
    pub snippets: TemplateSnippetStrings,
}

/// One of the templates of the site.
#[derive(Clone, Copy, Debug, PartialEq, Eq, Structural)]
pub enum TemplateId {
    PageAbout,
    PageAtom,
    PageGeneric,
    PageIndex,
    PagePost,
    AtomEntry,
    FooterCommon,
    FooterNavContent,
    FooterNav,
    Head,
    IndexContent,
    PostsContent,
    PostsPost,
    TagLink,
    TagPosts,
}

/// The file that holds the source of a template.
pub open spec fn template_name(id: TemplateId) -> Seq<char> {
    match id {
        TemplateId::PageAbout => "pages/about.html"@,
        TemplateId::PageAtom => "pages/atom.xml"@,
        TemplateId::PageGeneric => "pages/generic.html"@,
        TemplateId::PageIndex => "pages/index.html"@,
        TemplateId::PagePost => "pages/post.html"@,
        TemplateId::AtomEntry => "snippets/atom-entry.xml"@,
        TemplateId::FooterCommon => "snippets/footer-common.html"@,
        TemplateId::FooterNavContent => "snippets/footer-nav-content.html"@,
        TemplateId::FooterNav => "snippets/footer-nav.html"@,
        TemplateId::Head => "snippets/head.html"@,
        TemplateId::IndexContent => "snippets/index-content.html"@,
        TemplateId::PostsContent => "snippets/posts-content.html"@,
        TemplateId::PostsPost => "snippets/posts-post.html"@,
        TemplateId::TagLink => "snippets/tag-link.html"@,
        TemplateId::TagPosts => "snippets/tag-posts.html"@,
    }
}

impl TemplateId {
    /// The file that holds the source of the template.
    pub fn name(self) -> (name: &'static str)
        ensures
            name@ == template_name(self),
    {
        match self {
            TemplateId::PageAbout => "pages/about.html",
            TemplateId::PageAtom => "pages/atom.xml",
            TemplateId::PageGeneric => "pages/generic.html",
            TemplateId::PageIndex => "pages/index.html",
            TemplateId::PagePost => "pages/post.html",
            TemplateId::AtomEntry => "snippets/atom-entry.xml",
            TemplateId::FooterCommon => "snippets/footer-common.html",
            TemplateId::FooterNavContent => "snippets/footer-nav-content.html",
            TemplateId::FooterNav => "snippets/footer-nav.html",
            TemplateId::Head => "snippets/head.html",
            TemplateId::IndexContent => "snippets/index-content.html",
            TemplateId::PostsContent => "snippets/posts-content.html",
            TemplateId::PostsPost => "snippets/posts-post.html",
            TemplateId::TagLink => "snippets/tag-link.html",
            TemplateId::TagPosts => "snippets/tag-posts.html",
        }
    }
}

/// A template whose source `liquid` refused.
#[derive(Clone, Debug, PartialEq, Eq)]
pub struct TemplateError {
    /// The file of the template.
    pub template: String,
    /// What `liquid` said.
    pub detail: String,
}

/// A document that `liquid` could not render.
#[derive(Clone, Debug, PartialEq, Eq)]
pub struct RenderError {
    /// The document that was being rendered.
    pub document: String,
    /// What `liquid` said.
    pub detail: String,
}

/// A template and what to render it with.
#[derive(Clone, Debug, PartialEq, Eq)]
pub struct RenderCall {
    pub template: TemplateId,
    pub globals: Globals,
}

/// A `RenderCall` over sequences of characters.
pub struct RenderCallView {
    pub template: TemplateId,
    pub globals: Seq<(Seq<char>, Seq<char>)>,
}

impl View for RenderCall {
    type V = RenderCallView;

    open spec fn view(&self) -> RenderCallView {
        RenderCallView { template: self.template, globals: pair_views(self.globals@) }
    }
}

/// The compiled page templates.
pub struct PageTemplates {
    pub about: liquid::Template,
    pub atom: liquid::Template,
    pub generic: liquid::Template,
    pub index: liquid::Template,
    pub post: liquid::Template,
}

/// The compiled snippet templates.
pub struct SnippetTemplates {
    pub atom_entry: liquid::Template,
    pub footer_common: liquid::Template,
    pub footer_nav_content: liquid::Template,
    pub footer_nav: liquid::Template,
    pub head: liquid::Template,
    pub index_content: liquid::Template,
    pub posts_content: liquid::Template,
    pub posts_post: liquid::Template,
    pub tag_link: liquid::Template,
    pub tag_posts: liquid::Template,
}

/// All compiled templates.
pub struct Templates {
    pub pages: PageTemplates,
    pub snippets: SnippetTemplates,
}

/// The parser of the site: that of `liquid` with the standard tags, blocks
/// and filters of Liquid. Only `build_parser` makes one.
pub struct StandardParser {
    parser: liquid::Parser,
}

/// Whether the parser of `liquid` with the standard tags, blocks and
/// filters accepts `source` as a template.
pub uninterp spec fn liquid_compiles(source: Seq<char>) -> bool;

/// A parser with the standard tags, blocks and filters of Liquid, by
/// `liquid::ParserBuilder::with_stdlib` and `build`. Without partials, as
/// here, `build` has nothing that can fail and returns `Ok`.
#[verifier::external_body]
fn build_liquid_parser() -> (r: Result<liquid::Parser, liquid::Error>)
    ensures
        r is Ok,
{
    liquid::ParserBuilder::with_stdlib().build()
}

/// Compiles a template, by `liquid::Parser::parse` on the standard parser.
/// Whether it succeeds depends on the source alone; the contract gives that
/// a name and says no more of it.
#[verifier::external_body]
fn parse_liquid(parser: &StandardParser, text: &str) -> (r: Result<
    liquid::Template,
    liquid::Error,
>)
    ensures
        r is Ok <==> liquid_compiles(text@),
{
    parser.parser.parse(text)
}

/// Renders a template, by `liquid::Template::render`, with an object that
/// holds each value as a scalar under its name. Nothing is claimed of the
/// result: a template may read the clock.
#[verifier::external_body]
fn render_liquid(template: &liquid::Template, globals: &Globals) -> Result<String, liquid::Error> {
    let mut object = liquid::Object::new();
    for (name, value) in globals.iter() {
        object.insert(name.into(), liquid::model::Value::scalar(value.clone()));
    }
    template.render(&object)
}

/// What a `liquid::Error` says, by its `Display`.
#[verifier::external_body]
fn liquid_error_text(error: &liquid::Error) -> String {
    error.to_string()
}

/// What became of compiling the template in the file `name`: the template,
/// or the error that names the file.
pub fn parsed_or_error(name: &str, result: Result<liquid::Template, liquid::Error>) -> (r: Result<
    liquid::Template,
    TemplateError,
>)
    ensures
        r is Ok <==> result is Ok,
        r matches Ok(template) ==> result == Ok::<liquid::Template, liquid::Error>(template),
        r matches Err(e) ==> e.template@ == name@,
{
    match result {
        Ok(template) => Ok(template),
        Err(error) => Err(
            TemplateError { template: name.to_owned(), detail: liquid_error_text(&error) },
        ),
    }
}

/// What became of rendering `document`: the text, or the error that names
/// the document.
pub fn rendered_or_error(document: String, result: Result<String, liquid::Error>) -> (r: Result<
    String,
    RenderError,
>)
    ensures
        r is Ok <==> result is Ok,
        r matches Ok(text) ==> result == Ok::<String, liquid::Error>(text),
        r matches Err(e) ==> e.document == document,
{
    match result {
        Ok(text) => Ok(text),
        Err(error) => Err(RenderError { document, detail: liquid_error_text(&error) }),
    }
}

/// The parser that the templates of the site are compiled with. It is
/// always there.
pub fn build_parser() -> (r: Result<StandardParser, TemplateError>)
    ensures
        r is Ok,
{
    match build_liquid_parser() {
        Ok(parser) => Ok(StandardParser { parser }),
        Err(error) => Err(
            TemplateError { template: "parser".to_owned(), detail: liquid_error_text(&error) },
        ),
    }
}

/// Compiles the template of the file `id.name()` from its source: the
/// template where the source compiles, else the error that names the file.
pub fn parse_template_str(parser: &StandardParser, id: TemplateId, template: &str) -> (r: Result<
    liquid::Template,
    TemplateError,
>)
    ensures
        r is Ok <==> liquid_compiles(template@),
        r matches Err(e) ==> e.template@ == template_name(id),
{
    parsed_or_error(id.name(), parse_liquid(parser, template))
}

/// Whether the sources of all page templates compile.
pub open spec fn pages_compile(strings: TemplatePageStrings) -> bool {
    &&& liquid_compiles(strings.about@)
    &&& liquid_compiles(strings.atom@)
    &&& liquid_compiles(strings.generic@)
    &&& liquid_compiles(strings.index@)
    &&& liquid_compiles(strings.post@)
}

/// The first page template, in the order about, atom, generic, index, post,
/// whose source does not compile; the last where all compile.
pub open spec fn first_failing_page(strings: TemplatePageStrings) -> TemplateId {
    if !liquid_compiles(strings.about@) {
        TemplateId::PageAbout
    } else if !liquid_compiles(strings.atom@) {
        TemplateId::PageAtom
    } else if !liquid_compiles(strings.generic@) {
        TemplateId::PageGeneric
    } else if !liquid_compiles(strings.index@) {
        TemplateId::PageIndex
    } else {
        TemplateId::PagePost
    }
}

/// Whether the sources of all snippet templates compile.
pub open spec fn snippets_compile(strings: TemplateSnippetStrings) -> bool {
    &&& liquid_compiles(strings.atom_entry@)
    &&& liquid_compiles(strings.footer_common@)
    &&& liquid_compiles(strings.footer_nav_content@)
    &&& liquid_compiles(strings.footer_nav@)
    &&& liquid_compiles(strings.head@)
    &&& liquid_compiles(strings.index_content@)
    &&& liquid_compiles(strings.posts_content@)
    &&& liquid_compiles(strings.posts_post@)
    &&& liquid_compiles(strings.tag_link@)
    &&& liquid_compiles(strings.tag_posts@)
}

/// The first snippet template, in the order of the fields, whose source
/// does not compile; the last where all compile.
pub open spec fn first_failing_snippet(strings: TemplateSnippetStrings) -> TemplateId {
    if !liquid_compiles(strings.atom_entry@) {
        TemplateId::AtomEntry
    } else if !liquid_compiles(strings.footer_common@) {
        TemplateId::FooterCommon
    } else if !liquid_compiles(strings.footer_nav_content@) {
        TemplateId::FooterNavContent
    } else if !liquid_compiles(strings.footer_nav@) {
        TemplateId::FooterNav
    } else if !liquid_compiles(strings.head@) {
        TemplateId::Head
    } else if !liquid_compiles(strings.index_content@) {
        TemplateId::IndexContent
    } else if !liquid_compiles(strings.posts_content@) {
        TemplateId::PostsContent
    } else if !liquid_compiles(strings.posts_post@) {
        TemplateId::PostsPost
    } else if !liquid_compiles(strings.tag_link@) {
        TemplateId::TagLink
    } else {
        TemplateId::TagPosts
    }
}

/// Whether the sources of all templates compile.
pub open spec fn templates_compile(strings: TemplateStrings) -> bool {
    pages_compile(strings.pages) && snippets_compile(strings.snippets)
}

/// The first template, pages before snippets, whose source does not
/// compile.
pub open spec fn first_failing_template(strings: TemplateStrings) -> TemplateId {
    if !pages_compile(strings.pages) {
        first_failing_page(strings.pages)
    } else {
        first_failing_snippet(strings.snippets)
    }
}

impl PageTemplates {
    /// Compiles the page templates, in the order about, atom, generic, index,
    /// post; the first that fails decides the error.
    pub fn new(parser: &StandardParser, strings: &TemplatePageStrings) -> (r: Result<
        PageTemplates,
        TemplateError,
    >)
        ensures
            r is Ok <==> pages_compile(*strings),
            r matches Err(e) ==> e.template@ == template_name(first_failing_page(*strings)),
    {
        let about = parse_template_str(parser, TemplateId::PageAbout, strings.about.as_str())?;
        let atom = parse_template_str(parser, TemplateId::PageAtom, strings.atom.as_str())?;
        let generic = parse_template_str(parser, TemplateId::PageGeneric, strings.generic.as_str())?;
        let index = parse_template_str(parser, TemplateId::PageIndex, strings.index.as_str())?;
        let post = parse_template_str(parser, TemplateId::PagePost, strings.post.as_str())?;
        Ok(PageTemplates { about, atom, generic, index, post })
    }
}

impl SnippetTemplates {
    /// Compiles the snippet templates, in the order of the fields; the first
    /// that fails decides the error.
    pub fn new(parser: &StandardParser, strings: &TemplateSnippetStrings) -> (r: Result<
        SnippetTemplates,
        TemplateError,
    >)
        ensures
            r is Ok <==> snippets_compile(*strings),
            r matches Err(e) ==> e.template@ == template_name(first_failing_snippet(*strings)),
    {
        let atom_entry = parse_template_str(
            parser,
            TemplateId::AtomEntry,
            strings.atom_entry.as_str(),
        )?;
        let footer_common = parse_template_str(
            parser,
            TemplateId::FooterCommon,
            strings.footer_common.as_str(),
        )?;
        let footer_nav_content = parse_template_str(
            parser,
            TemplateId::FooterNavContent,
            strings.footer_nav_content.as_str(),
        )?;
        let footer_nav = parse_template_str(
            parser,
            TemplateId::FooterNav,
            strings.footer_nav.as_str(),
        )?;
        let head = parse_template_str(parser, TemplateId::Head, strings.head.as_str())?;
        let index_content = parse_template_str(
            parser,
            TemplateId::IndexContent,
            strings.index_content.as_str(),
        )?;
        let posts_content = parse_template_str(
            parser,
            TemplateId::PostsContent,
            strings.posts_content.as_str(),
        )?;
        let posts_post = parse_template_str(
            parser,
            TemplateId::PostsPost,
            strings.posts_post.as_str(),
        )?;
        let tag_link = parse_template_str(parser, TemplateId::TagLink, strings.tag_link.as_str())?;
        let tag_posts = parse_template_str(
            parser,
            TemplateId::TagPosts,
            strings.tag_posts.as_str(),
        )?;
        Ok(
            SnippetTemplates {
                atom_entry,
                footer_common,
                footer_nav_content,
                footer_nav,
                head,
                index_content,
                posts_content,
                posts_post,
                tag_link,
                tag_posts,
            },
        )
    }
}

impl Templates {
    /// Compiles every template of the site, pages first; the first that
    /// fails decides the error.
    pub fn new(parser: &StandardParser, strings: &TemplateStrings) -> (r: Result<
        Templates,
        TemplateError,
    >)
        ensures
            r is Ok <==> templates_compile(*strings),
            r matches Err(e) ==> e.template@ == template_name(first_failing_template(*strings)),
    {
        let pages = match PageTemplates::new(parser, &strings.pages) {
            Ok(pages) => pages,
            Err(e) => {
                return Err(e);
            },
        };
        let snippets = match SnippetTemplates::new(parser, &strings.snippets) {
            Ok(snippets) => snippets,
            Err(e) => {
                return Err(e);
            },
        };
        Ok(Templates { pages, snippets })
    }

    /// The compiled template that `id` names.
    pub fn get(&self, id: TemplateId) -> (template: &liquid::Template)
        ensures
            *template == self.template_of(id),
    {
        match id {
            TemplateId::PageAbout => &self.pages.about,
            TemplateId::PageAtom => &self.pages.atom,
            TemplateId::PageGeneric => &self.pages.generic,
            TemplateId::PageIndex => &self.pages.index,
            TemplateId::PagePost => &self.pages.post,
            TemplateId::AtomEntry => &self.snippets.atom_entry,
            TemplateId::FooterCommon => &self.snippets.footer_common,
            TemplateId::FooterNavContent => &self.snippets.footer_nav_content,
            TemplateId::FooterNav => &self.snippets.footer_nav,
            TemplateId::Head => &self.snippets.head,
            TemplateId::IndexContent => &self.snippets.index_content,
            TemplateId::PostsContent => &self.snippets.posts_content,
            TemplateId::PostsPost => &self.snippets.posts_post,
            TemplateId::TagLink => &self.snippets.tag_link,
            TemplateId::TagPosts => &self.snippets.tag_posts,
        }
    }

    /// The compiled template that `id` names.
    pub open spec fn template_of(&self, id: TemplateId) -> liquid::Template {
        match id {
            TemplateId::PageAbout => self.pages.about,
            TemplateId::PageAtom => self.pages.atom,
            TemplateId::PageGeneric => self.pages.generic,
            TemplateId::PageIndex => self.pages.index,
            TemplateId::PagePost => self.pages.post,
            TemplateId::AtomEntry => self.snippets.atom_entry,
            TemplateId::FooterCommon => self.snippets.footer_common,
            TemplateId::FooterNavContent => self.snippets.footer_nav_content,
            TemplateId::FooterNav => self.snippets.footer_nav,
            TemplateId::Head => self.snippets.head,
            TemplateId::IndexContent => self.snippets.index_content,
            TemplateId::PostsContent => self.snippets.posts_content,
            TemplateId::PostsPost => self.snippets.posts_post,
            TemplateId::TagLink => self.snippets.tag_link,
            TemplateId::TagPosts => self.snippets.tag_posts,
        }
    }

    /// Renders `document` as `call` says: the text that the template gives
    /// for the globals, or the error that names `document`.
    pub fn render(&self, call: &RenderCall, document: String) -> (r: Result<String, RenderError>)
        ensures
            r matches Err(e) ==> e.document == document,
    {
        render_with(self.get(call.template), &call.globals, document)
    }
}

/// Renders `document` through `template`: the text that the template gives
/// for the globals, or the error that names `document`.
pub fn render_with(template: &liquid::Template, globals: &Globals, document: String) -> (r: Result<
    String,
    RenderError,
>)
    ensures
        r matches Err(e) ==> e.document == document,
{
    rendered_or_error(document, render_liquid(template, globals))
}

/// A name with its value.
pub fn pair(name: &str, value: &str) -> (p: (String, String))
    ensures
        p.0@ == name@,
        p.1@ == value@,
{
    (name.to_owned(), value.to_owned())
}

/// The text `prefix`, then `rest`.
pub fn prefixed(prefix: &str, rest: &str) -> (out: String)
    ensures
        out@ == prefix@ + rest@,
{
    let mut out = prefix.to_owned();
    out.append(rest);
    out
}

} // verus!
