//! A post: its metadata, its rendered body, its summary and its address.

use vstd::prelude::*;
use crate::metadata::{Metadata, MetadataView, NUM_HEADER_LNS};
use crate::templates::{
    pair, prefixed, render_with, Globals, RenderCall, RenderCallView, RenderError, TemplateId,
};
use crate::text::{
    chars_of, join, join_strings, lines_of, lines_of_chars, string_from, string_views, texts,
};

verus! {

/// The address under which the site is served.
pub const URL_BASE: &'static str = "https://blog.mplanchard.com";

/// A post of the site.
#[derive(Clone, Debug, PartialEq, Eq)]
pub struct Post {
    /// The body, as HTML.
    pub content: String,
    pub metadata: Metadata,
    /// The summary of the post as the lists of posts show it.
    pub rendered_summary: String,
    /// The address of the page of the post.
    pub url: String,
}

/// A `Post` over sequences of characters.
pub struct PostView {
    pub content: Seq<char>,
    pub metadata: MetadataView,
    pub rendered_summary: Seq<char>,
    pub url: Seq<char>,
}

impl View for Post {
    type V = PostView;

    open spec fn view(&self) -> PostView {
        PostView {
            content: self.content@,
            metadata: self.metadata@,
            rendered_summary: self.rendered_summary@,
            url: self.url@,
        }
    }
}

/// The views of a sequence of posts.
pub open spec fn post_views(posts: Seq<Post>) -> Seq<PostView> {
    Seq::new(posts.len(), |i: int| posts[i]@)
}

/// The address of the page of the post with the slug `slug`.
pub open spec fn post_url(slug: Seq<char>) -> Seq<char> {
    URL_BASE@ + "/posts/"@ + slug + ".html"@
}

/// The lines of a post that follow its header.
pub open spec fn body_lines(text: Seq<char>) -> Seq<Seq<char>> {
    let lines = lines_of(text);
    if lines.len() > NUM_HEADER_LNS {
        lines.skip(NUM_HEADER_LNS as int)
    } else {
        Seq::empty()
    }
}

/// The body of a post: the lines that follow its header, with a line feed
/// between each two.
pub open spec fn body_of(text: Seq<char>) -> Seq<char> {
    join(body_lines(text), seq!['\n'])
}

/// What the summary of a post is rendered with.
pub open spec fn summary_call_of(metadata: MetadataView) -> RenderCallView {
    RenderCallView {
        template: TemplateId::PostsPost,
        globals: seq![
            ("slug"@, metadata.slug),
            ("title"@, metadata.title),
            ("summary"@, metadata.summary),
        ],
    }
}

/// The name of the summary of the post with the slug `slug`, as errors
/// give it.
pub open spec fn summary_document(slug: Seq<char>) -> Seq<char> {
    "post summary: "@ + slug
}

/// The body of the post `text`.
pub fn post_body(text: &str) -> (body: String)
    ensures
        body@ == body_of(text@),
{
    let chars = chars_of(text);
    let lines = lines_of_chars(&chars);
    let mut kept: Vec<String> = Vec::new();
    let mut i: usize = NUM_HEADER_LNS;
    while i < lines.len()
        invariant
            NUM_HEADER_LNS <= i,
            lines.len() > NUM_HEADER_LNS ==> i <= lines.len(),
            lines.len() > NUM_HEADER_LNS ==> string_views(kept@) == texts(lines@).subrange(
                NUM_HEADER_LNS as int,
                i as int,
            ),
            lines.len() <= NUM_HEADER_LNS ==> kept@.len() == 0,
        decreases lines.len() - i,
    {
        let line = string_from(&lines[i]);
        let ghost before = string_views(kept@);
        kept.push(line);
        assert(string_views(kept@) == before.push(lines@[i as int]@));
        i += 1;
    }
    proof {
        reveal_strlit("\n");
        assert("\n"@ == seq!['\n']);
        assert(string_views(kept@) == body_lines(text@));
    }
    join_strings(&kept, "\n")
}

impl Post {
    /// What the summary of a post with this metadata is rendered with: the
    /// template of a post in a list, with the slug, the title and the
    /// summary.
    pub fn summary_call(metadata: &Metadata) -> (call: RenderCall)
        ensures
            call@ == summary_call_of(metadata@),
    {
        let mut globals: Globals = Vec::new();
        globals.push(pair("slug", metadata.slug.as_str()));
        globals.push(pair("title", metadata.title.as_str()));
        globals.push(pair("summary", metadata.summary.as_str()));
        let call = RenderCall { template: TemplateId::PostsPost, globals };
        assert(call@.globals == summary_call_of(metadata@).globals);
        call
    }

    /// The summary of a post with this metadata, rendered through
    /// `template`.
    pub fn render_summary(template: &liquid::Template, metadata: &Metadata) -> (r: Result<
        String,
        RenderError,
    >)
        ensures
            r matches Err(e) ==> e.document@ == summary_document(metadata@.slug),
    {
        let call = Self::summary_call(metadata);
        let document = prefixed("post summary: ", metadata.slug.as_str());
        render_with(template, &call.globals, document)
    }

    /// The post of the given parts; its address follows from its slug.
    pub fn from_parts(metadata: Metadata, content: String, rendered_summary: String) -> (post: Post)
        ensures
            post.metadata == metadata,
            post.content == content,
            post.rendered_summary == rendered_summary,
            post.url@ == post_url(metadata@.slug),
    {
        let mut url = prefixed(URL_BASE, "/posts/");
        url.append(metadata.slug.as_str());
        url.append(".html");
        Post { content, metadata, rendered_summary, url }
    }

    /// The post of the given metadata and body, its summary rendered
    /// through `post_summary_template`.
    pub fn new(post_summary_template: &liquid::Template, metadata: Metadata, content: String) -> (r:
        Result<Post, RenderError>)
        ensures
            r matches Ok(post) ==> post.metadata == metadata && post.content == content
                && post.url@ == post_url(metadata@.slug),
            r matches Err(e) ==> e.document@ == summary_document(metadata@.slug),
    {
        let rendered_summary = match Self::render_summary(post_summary_template, &metadata) {
            Ok(text) => text,
            Err(e) => {
                return Err(e);
            },
        };
        Ok(Self::from_parts(metadata, content, rendered_summary))
    }
}

} // verus!
