//! The documents of the site, rendered from the posts through the
//! templates, each with the path that it is written to.

use vstd::prelude::*;
use crate::calls::{
    about_head_call, about_page_call, atom_entry_call, atom_page_call, chrome_page_call,
    footer_common_call, footer_nav_call, footer_nav_content_call, footer_nav_links,
    generic_globals_from, generic_globals_of, head_call, index_content_call, index_head_call,
    notfound_head_call, notfound_page_call, post_head_call, post_nav_links, post_page_call,
    posts_content_call, tag_link_call, tag_posts_call, NavLink,
};
use crate::collection::{
    all_parse, are_posts_of, collect_posts, is_collection_of, is_post_of, is_stable_sort_of,
    is_summary_failure_of, SiteError, SourceFile,
};
use crate::date::Date;
use crate::metadata::{metadata_of, MetadataView, ParseErrorView};
use crate::post::{post_views, Post, PostView};
use crate::relations::{
    bucket_of, groups, is_tag_of, lemma_bucket_members_in_range, lemma_bucket_tag_is_listed,
    next_of, previous_of, tag_map, tag_pairs, TagMap,
};
use crate::templates::{
    build_parser, first_failing_template, prefixed, template_name, templates_compile, Globals,
    RenderCall, RenderError, TemplateBlockStrings, TemplateId, TemplateStrings, Templates,
};
use crate::text::{join_strings, pair_views};

verus! {

/// A document of the site: where it is written, below the directory of
/// the site, and what it holds.
#[derive(Clone, Debug, PartialEq, Eq)]
pub struct Document {
    pub path: String,
    pub content: String,
}

/// What is rendered once for a run and shared by all pages.
#[derive(Clone, Debug, PartialEq, Eq)]
pub struct PreRenderedTemplates {
    pub footer_common: String,
}

/// What a run works on: the blocks, the posts, the common footer and the
/// compiled templates.
pub struct ContextData {
    pub blocks: TemplateBlockStrings,
    pub posts: Vec<Post>,
    pub pre_rendered: PreRenderedTemplates,
    pub templates: Templates,
}

/// What the rendering functions share: the data of the run, and the tags
/// of its posts.
pub struct Context<'a> {
    blocks: &'a TemplateBlockStrings,
    posts: &'a Vec<Post>,
    pre_rendered: &'a PreRenderedTemplates,
    tag_map: TagMap,
    templates: &'a Templates,
}

/// The path of the page of the post with the slug `slug`.
pub open spec fn post_path(slug: Seq<char>) -> Seq<char> {
    "posts/"@ + slug + ".html"@
}

/// The paths of the pages of the posts, in the order of the posts.
pub open spec fn post_paths(posts: Seq<PostView>) -> Seq<Seq<char>> {
    Seq::new(posts.len(), |i: int| post_path(posts[i].metadata.slug))
}

/// The paths of the documents of a site, in the order in which they are
/// generated.
pub open spec fn site_paths(posts: Seq<PostView>) -> Seq<Seq<char>> {
    seq!["about.html"@, "atom.xml"@, "index.html"@, "notfound.html"@] + post_paths(posts) + seq![
        "posts.html"@,
        "tags.html"@,
    ]
}

/// The paths of a sequence of documents.
pub open spec fn document_paths(documents: Seq<Document>) -> Seq<Seq<char>> {
    Seq::new(documents.len(), |i: int| documents[i].path@)
}

/// The name of the page of a post, as errors give it.
pub open spec fn post_document(slug: Seq<char>) -> Seq<char> {
    "post: "@ + slug
}

/// The name of the feed entry of a post, as errors give it.
pub open spec fn atom_entry_document(slug: Seq<char>) -> Seq<char> {
    "atom entry: "@ + slug
}

/// The name of the link of a tag, as errors give it.
pub open spec fn tag_link_document(tag: Seq<char>) -> Seq<char> {
    "tag link: "@ + tag
}

/// The name of the block of a tag on the page of tags, as errors give it.
pub open spec fn tag_document(tag: Seq<char>) -> Seq<char> {
    "tag: "@ + tag
}

/// The name of a page in the shared chrome, as errors give it.
pub open spec fn generic_document(title: Seq<char>) -> Seq<char> {
    "page: "@ + title
}

/// Whether the names and values are those of the chrome, whatever the
/// head.
pub open spec fn is_generic_globals(
    globals: Seq<(Seq<char>, Seq<char>)>,
    header: Seq<char>,
    content: Seq<char>,
    footer_common: Seq<char>,
) -> bool {
    exists|head: Seq<char>| globals == #[trigger] generic_globals_of(head, header, content, footer_common)
}

/// Whether `name` names a part of the page of `post`.
pub open spec fn is_post_page_document(name: Seq<char>, post: PostView) -> bool {
    ||| name == "footer nav content"@
    ||| name == "footer nav"@
    ||| name == "head"@
    ||| name == post_document(post.metadata.slug)
    ||| exists|k: int|
        0 <= k < post.metadata.tags.len() && name == tag_link_document(
            #[trigger] post.metadata.tags[k],
        )
}

/// Whether `name` names the feed or the entry of one of the posts.
pub open spec fn is_atom_document(name: Seq<char>, posts: Seq<PostView>) -> bool {
    ||| name == "atom.xml"@
    ||| exists|i: int|
        0 <= i < posts.len() && name == atom_entry_document((#[trigger] posts[i]).metadata.slug)
}

/// Whether `name` names a part of the page of tags of the posts: its head,
/// the page itself, or the block of one of their tags.
pub open spec fn is_tags_page_document(name: Seq<char>, posts: Seq<PostView>) -> bool {
    ||| name == "head"@
    ||| name == generic_document("Tags"@)
    ||| exists|tag: Seq<char>| is_tag_of(posts, tag) && name == #[trigger] tag_document(tag)
}

/// Whether `name` names a document of the site of the posts or a part of
/// one: what an error of rendering the site can name.
pub open spec fn is_site_document(name: Seq<char>, posts: Seq<PostView>) -> bool {
    ||| name == "head"@
    ||| name == "about.html"@
    ||| is_atom_document(name, posts)
    ||| name == "index content"@
    ||| name == "index.html"@
    ||| name == generic_document("Not Found"@)
    ||| exists|i: int|
        0 <= i < posts.len() && is_post_page_document(name, #[trigger] posts[i])
    ||| name == "posts content"@
    ||| name == generic_document("Posts"@)
    ||| is_tags_page_document(name, posts)
}

/// The name of a link of the navigation is the name of no other part of
/// the page of a post.
pub proof fn lemma_nav_content_name_is_apart()
    ensures
        "footer nav"@ != "footer nav content"@,
        "head"@ != "footer nav content"@,
        forall|slug: Seq<char>| #[trigger] post_document(slug) != "footer nav content"@,
        forall|tag: Seq<char>| #[trigger] tag_link_document(tag) != "footer nav content"@,
{
    reveal_strlit("footer nav");
    reveal_strlit("footer nav content");
    reveal_strlit("head");
    reveal_strlit("post: ");
    reveal_strlit("tag link: ");
    assert("footer nav"@.len() == 10);
    assert("footer nav content"@.len() == 18);
    assert("head"@.len() == 4);
    assert("footer nav content"@[0] == 'f');
    assert forall|slug: Seq<char>| #[trigger] post_document(slug) != "footer nav content"@ by {
        assert(post_document(slug)[0] == 'p');
    }
    assert forall|tag: Seq<char>| #[trigger] tag_link_document(tag) != "footer nav content"@ by {
        assert(tag_link_document(tag)[0] == 't');
    }
}

impl PreRenderedTemplates {
    /// Renders what all pages share, with the day of the run.
    pub fn new(templates: &Templates, today: &Date) -> (r: Result<PreRenderedTemplates, RenderError>)
        ensures
            r matches Err(e) ==> e.document@ == "footer common"@,
    {
        let footer_common = Self::render_footer_common(&templates.snippets.footer_common, today)?;
        Ok(PreRenderedTemplates { footer_common })
    }

    /// The common footer, with the day of the run.
    pub fn render_footer_common(template: &liquid::Template, today: &Date) -> (r: Result<
        String,
        RenderError,
    >)
        ensures
            r matches Err(e) ==> e.document@ == "footer common"@,
    {
        let call = footer_common_call(today);
        crate::templates::render_with(template, &call.globals, "footer common".to_owned())
    }
}

impl ContextData {
    /// Compiles the templates, loads the posts of the files and renders the
    /// common footer with the day `today`. The first of these that fails
    /// decides the error: a template whose source does not compile, then
    /// file by file a header that cannot be read or a summary that does not
    /// render, then the footer.
    pub fn new(strings: TemplateStrings, files: &Vec<SourceFile>, today: &Date) -> (r: Result<
        ContextData,
        SiteError,
    >)
        ensures
            r matches Err(SiteError::Template(_)) <==> !templates_compile(strings),
            r matches Err(SiteError::Template(e)) ==> e.template@ == template_name(
                first_failing_template(strings),
            ),
            r matches Ok(data) ==> data.blocks == strings.blocks && is_collection_of(
                post_views(data.posts@),
                files@,
            ),
            r matches Err(SiteError::Parse { file, error }) ==> exists|i: int|
                0 <= i < files.len() && file == (#[trigger] files[i]).name && metadata_of(
                    files[i].text@,
                ) == Err::<MetadataView, ParseErrorView>(error@) && forall|j: int|
                    0 <= j < i ==> metadata_of((#[trigger] files[j]).text@) is Ok,
            r matches Err(SiteError::Render(e)) ==> is_summary_failure_of(e.document@, files@) || (
            e.document@ == "footer common"@ && all_parse(files@)),
    {
        let parser = match build_parser() {
            Ok(parser) => parser,
            Err(e) => {
                return Err(SiteError::Template(e));
            },
        };
        let templates = match Templates::new(&parser, &strings) {
            Ok(templates) => templates,
            Err(e) => {
                return Err(SiteError::Template(e));
            },
        };
        let posts = match collect_posts(&templates.snippets.posts_post, files) {
            Ok(posts) => posts,
            Err(e) => {
                return Err(e);
            },
        };
        proof {
            lemma_collection_parses(post_views(posts@), files@);
        }
        let pre_rendered = match PreRenderedTemplates::new(&templates, today) {
            Ok(pre_rendered) => pre_rendered,
            Err(e) => {
                return Err(SiteError::Render(e));
            },
        };
        Ok(ContextData { blocks: strings.blocks, posts, pre_rendered, templates })
    }
}

/// Where the posts are those of the files, the header of every file can be
/// read.
pub proof fn lemma_collection_parses(posts: Seq<PostView>, files: Seq<SourceFile>)
    requires
        is_collection_of(posts, files),
    ensures
        all_parse(files),
{
    let loaded = choose|loaded: Seq<PostView>|
        are_posts_of(loaded, files) && #[trigger] is_stable_sort_of(posts, loaded);
    assert forall|i: int| 0 <= i < files.len() implies metadata_of(
        (#[trigger] files[i]).text@,
    ) is Ok by {
        assert(is_post_of(loaded[i], files[i].text@));
    }
}

impl<'a> Context<'a> {
    #[verifier::type_invariant]
    spec fn well_formed(self) -> bool {
        groups(self.tag_map@, tag_pairs(post_views(self.posts@)))
    }

    /// The posts of the run.
    pub closed spec fn posts_view(self) -> Seq<PostView> {
        post_views(self.posts@)
    }

    /// The blocks of the run.
    pub closed spec fn blocks_view(self) -> TemplateBlockStrings {
        *self.blocks
    }

    /// The common footer of the run.
    pub closed spec fn footer_view(self) -> Seq<char> {
        self.pre_rendered.footer_common@
    }

    /// The number of tags of the posts.
    pub closed spec fn tag_count(self) -> nat {
        self.tag_map.buckets.len() as nat
    }

    /// The tag at `at` among the tags, in the order of a dictionary.
    pub closed spec fn tag_at(self, at: int) -> Seq<char> {
        self.tag_map.buckets[at].tag@
    }

    /// The context of a run: its data, and the tags of its posts.
    pub fn new(data: &'a ContextData) -> (context: Context<'a>)
        ensures
            context.posts_view() == post_views(data.posts@),
            context.blocks_view() == data.blocks,
            context.footer_view() == data.pre_rendered.footer_common@,
    {
        let tag_map = tag_map(&data.posts);
        Context {
            blocks: &data.blocks,
            pre_rendered: &data.pre_rendered,
            tag_map,
            posts: &data.posts,
            templates: &data.templates,
        }
    }

    /// The posts of the run, newest first.
    pub fn posts(&self) -> (posts: &Vec<Post>)
        ensures
            post_views(posts@) == self.posts_view(),
    {
        self.posts
    }

    /// The tags of the posts, each with the posts that carry it.
    pub fn tags(&self) -> (map: &TagMap)
        ensures
            groups(map@, tag_pairs(self.posts_view())),
            map@.len() == self.tag_count(),
            forall|at: int| 0 <= at < map@.len() ==> (#[trigger] map@[at]).tag == self.tag_at(at),
    {
        proof {
            use_type_invariant(self);
        }
        &self.tag_map
    }

    /// Every document of the site: the about page, the feed, the front
    /// page, the page for what is not found, the pages of the posts, the
    /// list of posts and the page of tags. The first document that does
    /// not render ends the run, and the error names it or the part of it
    /// that failed.
    pub fn generate_all(&self) -> (r: Result<Vec<Document>, RenderError>)
        ensures
            r matches Ok(documents) ==> document_paths(documents@) == site_paths(self.posts_view()),
            r matches Err(e) ==> is_site_document(e.document@, self.posts_view()),
    {
        let mut documents: Vec<Document> = Vec::new();
        documents.push(self.generate_about_page()?);
        documents.push(self.generate_atom_page()?);
        documents.push(self.generate_index_page()?);
        documents.push(self.generate_notfound_page()?);
        let ghost chrome = document_paths(documents@);
        assert(chrome == seq!["about.html"@, "atom.xml"@, "index.html"@, "notfound.html"@]);
        let mut pages = self.generate_post_pages()?;
        let ghost page_paths = document_paths(pages@);
        documents.append(&mut pages);
        assert(document_paths(documents@) == chrome + page_paths);
        documents.push(self.generate_posts_page()?);
        documents.push(self.generate_tags_page()?);
        assert(document_paths(documents@) == chrome + page_paths + seq![
            "posts.html"@,
            "tags.html"@,
        ]);
        Ok(documents)
    }

    /// The about page, at `about.html`.
    pub fn generate_about_page(&self) -> (r: Result<Document, RenderError>)
        ensures
            r matches Ok(document) ==> document.path@ == "about.html"@,
            r matches Err(e) ==> e.document@ == "head"@ || e.document@ == "about.html"@,
    {
        let content = self.render_about_page()?;
        Ok(Document { path: "about.html".to_owned(), content })
    }

    /// The feed, at `atom.xml`.
    pub fn generate_atom_page(&self) -> (r: Result<Document, RenderError>)
        ensures
            r matches Ok(document) ==> document.path@ == "atom.xml"@,
            r matches Err(e) ==> is_atom_document(e.document@, self.posts_view()),
    {
        let content = self.render_atom_page()?;
        Ok(Document { path: "atom.xml".to_owned(), content })
    }

    /// The front page, at `index.html`.
    pub fn generate_index_page(&self) -> (r: Result<Document, RenderError>)
        ensures
            r matches Ok(document) ==> document.path@ == "index.html"@,
            r matches Err(e) ==> e.document@ == "index content"@ || e.document@ == "head"@
                || e.document@ == "index.html"@,
    {
        let content = self.render_index_page()?;
        Ok(Document { path: "index.html".to_owned(), content })
    }

    /// The page for what is not found, at `notfound.html`.
    pub fn generate_notfound_page(&self) -> (r: Result<Document, RenderError>)
        ensures
            r matches Ok(document) ==> document.path@ == "notfound.html"@,
            r matches Err(e) ==> e.document@ == "head"@ || e.document@ == generic_document(
                "Not Found"@,
            ),
    {
        let content = self.render_notfound_page()?;
        Ok(Document { path: "notfound.html".to_owned(), content })
    }

    /// The page of the post with the slug `slug`, at `posts/{slug}.html`.
    pub fn generate_post_page(&self, slug: &str, content: String) -> (document: Document)
        ensures
            document.path@ == post_path(slug@),
            document.content == content,
    {
        let mut path = prefixed("posts/", slug);
        path.append(".html");
        Document { path, content }
    }

    /// The pages of all posts, in the order of the posts.
    pub fn generate_post_pages(&self) -> (r: Result<Vec<Document>, RenderError>)
        ensures
            self.posts_view().len() == 0 ==> r is Ok,
            r matches Ok(documents) ==> document_paths(documents@) == post_paths(self.posts_view()),
            r matches Err(e) ==> exists|i: int|
                0 <= i < self.posts_view().len() && is_post_page_document(
                    e.document@,
                    #[trigger] self.posts_view()[i],
                ),
    {
        let mut documents: Vec<Document> = Vec::new();
        let mut i: usize = 0;
        while i < self.posts.len()
            invariant
                i <= self.posts.len(),
                document_paths(documents@) == post_paths(self.posts_view()).take(i as int),
            decreases self.posts.len() - i,
        {
            let post = &self.posts[i];
            let content = match self.render_post_page(i, post) {
                Ok(content) => content,
                Err(e) => {
                    assert(self.posts_view()[i as int] == post@);
                    return Err(e);
                },
            };
            let ghost before = document_paths(documents@);
            documents.push(self.generate_post_page(post.metadata.slug.as_str(), content));
            assert(document_paths(documents@) == before.push(
                post_path(self.posts@[i as int].metadata.slug@),
            ));
            i += 1;
        }
        assert(post_paths(self.posts_view()).take(self.posts.len() as int) == post_paths(
            self.posts_view(),
        ));
        Ok(documents)
    }

    /// The list of all posts, at `posts.html`.
    pub fn generate_posts_page(&self) -> (r: Result<Document, RenderError>)
        ensures
            r matches Ok(document) ==> document.path@ == "posts.html"@,
            r matches Err(e) ==> e.document@ == "posts content"@ || e.document@ == "head"@
                || e.document@ == generic_document("Posts"@),
    {
        let content = self.render_posts_page()?;
        Ok(Document { path: "posts.html".to_owned(), content })
    }

    /// The page of tags, at `tags.html`.
    pub fn generate_tags_page(&self) -> (r: Result<Document, RenderError>)
        ensures
            r matches Ok(document) ==> document.path@ == "tags.html"@,
            r matches Err(e) ==> is_tags_page_document(e.document@, self.posts_view()),
    {
        let content = self.render_tags_page()?;
        Ok(Document { path: "tags.html".to_owned(), content })
    }

    /// The names and values of the chrome of a page: its head, rendered
    /// with `title`, the header block, `content` and the common footer.
    pub fn generic_globals_vec(&self, title: &str, content: &str) -> (r: Result<Globals, RenderError>)
        ensures
            r matches Ok(globals) ==> is_generic_globals(
                pair_views(globals@),
                self.blocks_view().header@,
                content@,
                self.footer_view(),
            ),
            r matches Err(e) ==> e.document@ == "head"@,
    {
        let head = self.render_head_block(title)?;
        let globals = generic_globals_from(
            head.as_str(),
            self.blocks.header.as_str(),
            content,
            self.pre_rendered.footer_common.as_str(),
        );
        assert(pair_views(globals@) == generic_globals_of(
            head@,
            self.blocks_view().header@,
            content@,
            self.footer_view(),
        ));
        Ok(globals)
    }

    /// The about page: its head, then the about block in the chrome,
    /// through the template of the about page.
    pub fn render_about_page(&self) -> (r: Result<String, RenderError>)
        ensures
            r matches Err(e) ==> e.document@ == "head"@ || e.document@ == "about.html"@,
    {
        let head = self.templates.render(&about_head_call(), "head".to_owned())?;
        let call = about_page_call(
            head.as_str(),
            self.blocks,
            self.pre_rendered.footer_common.as_str(),
        );
        self.templates.render(&call, "about.html".to_owned())
    }

    /// The feed entry of `post`.
    pub fn render_atom_entry(&self, post: &Post) -> (r: Result<String, RenderError>)
        ensures
            r matches Err(e) ==> e.document@ == atom_entry_document(post@.metadata.slug),
    {
        let call = atom_entry_call(post);
        self.templates.render(&call, prefixed("atom entry: ", post.metadata.slug.as_str()))
    }

    /// The feed: one entry for each post, and the day of the latest update
    /// of a post.
    pub fn render_atom_page(&self) -> (r: Result<String, RenderError>)
        ensures
            r matches Err(e) ==> is_atom_document(e.document@, self.posts_view()),
    {
        let mut entries: Vec<String> = Vec::new();
        let mut i: usize = 0;
        while i < self.posts.len()
            invariant
                i <= self.posts.len(),
                entries.len() == i,
            decreases self.posts.len() - i,
        {
            let entry = match self.render_atom_entry(&self.posts[i]) {
                Ok(entry) => entry,
                Err(e) => {
                    assert(self.posts_view()[i as int] == self.posts@[i as int]@);
                    return Err(e);
                },
            };
            entries.push(entry);
            i += 1;
        }
        let call = atom_page_call(self.posts, &entries);
        self.templates.render(&call, "atom.xml".to_owned())
    }

    /// One link of the navigation of a post: nothing where there is no
    /// slug.
    pub fn render_footer_inner_content_block(&self, slug: Option<&str>, description: &str) -> (r:
        Result<String, RenderError>)
        ensures
            slug is None ==> r is Ok && r->Ok_0@ == Seq::<char>::empty(),
            r matches Err(e) ==> e.document@ == "footer nav content"@,
    {
        match slug {
            Some(s) => {
                let call = footer_nav_content_call(s, description);
                self.templates.render(&call, "footer nav content".to_owned())
            },
            None => Ok(String::new()),
        }
    }

    /// The link, rendered: nothing where it leads to no post.
    pub fn render_nav_link(&self, link: &NavLink) -> (r: Result<String, RenderError>)
        ensures
            link@.slug is None ==> r is Ok && r->Ok_0@ == Seq::<char>::empty(),
            r matches Err(e) ==> e.document@ == "footer nav content"@,
    {
        let slug: Option<&str> = match &link.slug {
            Some(slug) => Some(slug.as_str()),
            None => None,
        };
        self.render_footer_inner_content_block(slug, link.description.as_str())
    }

    /// The navigation with the given link on its left and on its right.
    pub fn render_nav_links(&self, left: &NavLink, right: &NavLink) -> (r: Result<
        String,
        RenderError,
    >)
        ensures
            r matches Err(e) ==> e.document@ == "footer nav content"@ || e.document@
                == "footer nav"@,
            r matches Err(e) ==> e.document@ == "footer nav content"@ ==> left@.slug is Some
                || right@.slug is Some,
    {
        proof {
            lemma_nav_content_name_is_apart();
        }
        let left_content = self.render_nav_link(left)?;
        let right_content = self.render_nav_link(right)?;
        let call = footer_nav_call(left_content.as_str(), right_content.as_str());
        self.templates.render(&call, "footer nav".to_owned())
    }

    /// The navigation of a post: a link to the previous post on the left
    /// and one to the next post on the right, each where there is such a
    /// post.
    pub fn render_footer_nav_block(&self, prev_slug: Option<&str>, next_slug: Option<&str>) -> (r:
        Result<String, RenderError>)
        ensures
            r matches Err(e) ==> e.document@ == "footer nav content"@ || e.document@
                == "footer nav"@,
            r matches Err(e) ==> e.document@ == "footer nav content"@ ==> prev_slug is Some
                || next_slug is Some,
    {
        let (left, right) = footer_nav_links(prev_slug, next_slug);
        self.render_nav_links(&left, &right)
    }

    /// A page in the shared chrome, through the generic template.
    pub fn render_generic_page(&self, title: &str, content: &str) -> (r: Result<String, RenderError>)
        ensures
            r matches Err(e) ==> e.document@ == "head"@ || e.document@ == generic_document(title@),
    {
        let globals = self.generic_globals_vec(title, content)?;
        let call = RenderCall { template: TemplateId::PageGeneric, globals };
        self.templates.render(&call, prefixed("page: ", title))
    }

    /// The head of a page with the title `title`.
    pub fn render_head_block(&self, title: &str) -> (r: Result<String, RenderError>)
        ensures
            r matches Err(e) ==> e.document@ == "head"@,
    {
        let call = head_call(title);
        self.templates.render(&call, "head".to_owned())
    }

    /// The front page: the summaries of the most recent posts in the
    /// chrome, through the template of the front page.
    pub fn render_index_page(&self) -> (r: Result<String, RenderError>)
        ensures
            r matches Err(e) ==> e.document@ == "index content"@ || e.document@ == "head"@
                || e.document@ == "index.html"@,
    {
        let call = index_content_call(self.posts);
        let index_content = self.templates.render(&call, "index content".to_owned())?;
        let head = self.templates.render(&index_head_call(), "head".to_owned())?;
        let call = chrome_page_call(
            TemplateId::PageIndex,
            head.as_str(),
            self.blocks.header.as_str(),
            index_content.as_str(),
            self.pre_rendered.footer_common.as_str(),
        );
        self.templates.render(&call, "index.html".to_owned())
    }

    /// The page for what is not found: its head, then the block for it in
    /// the chrome, through the generic template.
    pub fn render_notfound_page(&self) -> (r: Result<String, RenderError>)
        ensures
            r matches Err(e) ==> e.document@ == "head"@ || e.document@ == generic_document(
                "Not Found"@,
            ),
    {
        let head = self.templates.render(&notfound_head_call(), "head".to_owned())?;
        let call = notfound_page_call(
            head.as_str(),
            self.blocks,
            self.pre_rendered.footer_common.as_str(),
        );
        self.templates.render(&call, prefixed("page: ", "Not Found"))
    }

    /// The list of all posts: the summaries of all posts.
    pub fn render_posts_page(&self) -> (r: Result<String, RenderError>)
        ensures
            r matches Err(e) ==> e.document@ == "posts content"@ || e.document@ == "head"@
                || e.document@ == generic_document("Posts"@),
    {
        let call = posts_content_call(self.posts);
        let posts_content = self.templates.render(&call, "posts content".to_owned())?;
        self.render_generic_page("Posts", posts_content.as_str())
    }

    /// The page of `post`, which stands at `index` among the posts: its
    /// content in the chrome, the day of its last update, the links of its
    /// tags and the navigation to its neighbours.
    pub fn render_post_page(&self, index: usize, post: &Post) -> (r: Result<String, RenderError>)
        ensures
            r matches Err(e) ==> is_post_page_document(e.document@, post@),
            r matches Err(e) ==> e.document@ == "footer nav content"@ ==> previous_of(
                self.posts_view(),
                index as int,
            ) is Some || next_of(self.posts_view(), index as int) is Some,
    {
        proof {
            lemma_nav_content_name_is_apart();
        }
        let (left, right) = post_nav_links(self.posts, index);
        let footer_nav = self.render_nav_links(&left, &right)?;
        let head = self.templates.render(&post_head_call(post), "head".to_owned())?;
        let mut tag_links: Vec<String> = Vec::new();
        let mut k: usize = 0;
        while k < post.metadata.tags.len()
            invariant
                k <= post.metadata.tags.len(),
                tag_links.len() == k,
            decreases post.metadata.tags.len() - k,
        {
            let link = match self.render_tag_link(post.metadata.tags[k].as_str()) {
                Ok(link) => link,
                Err(e) => {
                    proof {
                        lemma_nav_content_name_is_apart();
                    }
                    assert(post@.metadata.tags[k as int] == post.metadata.tags@[k as int]@);
                    return Err(e);
                },
            };
            tag_links.push(link);
            k += 1;
        }
        let call = post_page_call(
            post,
            head.as_str(),
            self.blocks.header.as_str(),
            self.pre_rendered.footer_common.as_str(),
            footer_nav.as_str(),
            &tag_links,
        );
        let document = prefixed("post: ", post.metadata.slug.as_str());
        assert(document@ == post_document(post@.metadata.slug));
        self.templates.render(&call, document)
    }

    /// The link of a tag.
    pub fn render_tag_link(&self, tag: &str) -> (r: Result<String, RenderError>)
        ensures
            r matches Err(e) ==> e.document@ == tag_link_document(tag@),
    {
        let call = tag_link_call(tag);
        self.templates.render(&call, prefixed("tag link: ", tag))
    }

    /// The block of the tag at `at` among the tags, on the page of tags:
    /// the tag, and the summaries of its posts.
    pub fn render_tag_for_tags_page(&self, at: usize) -> (r: Result<String, RenderError>)
        requires
            at < self.tag_count(),
        ensures
            is_tag_of(self.posts_view(), self.tag_at(at as int)),
            r matches Err(e) ==> e.document@ == tag_document(self.tag_at(at as int)),
    {
        proof {
            use_type_invariant(self);
        }
        let bucket = &self.tag_map.buckets[at];
        proof {
            lemma_bucket_members_in_range(post_views(self.posts@), bucket@.tag);
            lemma_bucket_tag_is_listed(self.tag_map@, post_views(self.posts@), at as int);
            assert(self.tag_map@[at as int] == bucket@);
            assert(bucket@.posts == bucket_of(tag_pairs(post_views(self.posts@)), bucket@.tag));
            assert forall|k: int| 0 <= k < bucket.posts.len() implies #[trigger] bucket.posts[k]
                < self.posts.len() by {
                assert(bucket@.posts[k] == bucket.posts[k] as int);
            }
        }
        let call = tag_posts_call(self.posts, bucket);
        self.templates.render(&call, prefixed("tag: ", bucket.tag.as_str()))
    }

    /// The blocks of all tags, in the order of a dictionary, a line feed
    /// between each two.
    pub fn render_tags_page_content(&self) -> (r: Result<String, RenderError>)
        ensures
            self.tag_count() == 0 ==> r is Ok && r->Ok_0@ == Seq::<char>::empty(),
            r matches Err(e) ==> exists|tag: Seq<char>|
                is_tag_of(self.posts_view(), tag) && e.document@ == #[trigger] tag_document(tag),
    {
        let mut blocks: Vec<String> = Vec::new();
        let mut at: usize = 0;
        while at < self.tag_map.buckets.len()
            invariant
                at <= self.tag_map.buckets.len(),
                blocks.len() == at,
            decreases self.tag_map.buckets.len() - at,
        {
            let block = match self.render_tag_for_tags_page(at) {
                Ok(block) => block,
                Err(e) => {
                    assert(e.document@ == tag_document(self.tag_at(at as int)));
                    return Err(e);
                },
            };
            blocks.push(block);
            at += 1;
        }
        assert(blocks@.len() == 0 ==> crate::text::string_views(blocks@).len() == 0);
        Ok(join_strings(&blocks, "\n"))
    }

    /// The page of tags: the blocks of all tags in the chrome.
    pub fn render_tags_page(&self) -> (r: Result<String, RenderError>)
        ensures
            r matches Err(e) ==> is_tags_page_document(e.document@, self.posts_view()),
    {
        let tags_page_content = self.render_tags_page_content()?;
        self.render_generic_page("Tags", tags_page_content.as_str())
    }
}

} // verus!
