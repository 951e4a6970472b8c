//! What each document of the site is rendered with: the template and the
//! names and values handed to it, computed from the posts.

use vstd::prelude::*;
use crate::date::{Date, DateView};
use crate::post::{post_views, Post, PostView};
use crate::relations::{neighbors, next_of, previous_of, TagBucket};
use crate::templates::{
    pair, Globals, RenderCall, RenderCallView, TemplateBlockStrings, TemplateId,
};
use crate::text::{join, join_strings, pair_views, string_views};

verus! {

/// The number of posts that the front page shows.
pub const IDX_NUM_RECENT_POSTS: usize = 10;

/// What the common footer is rendered with: the day of the run.
pub open spec fn footer_common_call_of(today: DateView) -> RenderCallView {
    RenderCallView { template: TemplateId::FooterCommon, globals: seq![("year"@, today.text())] }
}

/// What the head of a page is rendered with: its title.
pub open spec fn head_call_of(title: Seq<char>) -> RenderCallView {
    RenderCallView { template: TemplateId::Head, globals: seq![("title"@, title)] }
}

/// The names and values of the chrome that all pages share.
pub open spec fn generic_globals_of(
    head: Seq<char>,
    header: Seq<char>,
    content: Seq<char>,
    footer_common: Seq<char>,
) -> Seq<(Seq<char>, Seq<char>)> {
    seq![
        ("head"@, head),
        ("header"@, header),
        ("content"@, content),
        ("footer-common"@, footer_common),
    ]
}

/// What the feed entry of a post is rendered with.
pub open spec fn atom_entry_call_of(post: PostView) -> RenderCallView {
    RenderCallView {
        template: TemplateId::AtomEntry,
        globals: seq![
            ("title"@, post.metadata.title),
            ("link"@, post.url),
            ("updated"@, post.metadata.updated.rfc3339()),
            ("summary"@, post.metadata.summary),
        ],
    }
}

/// The latest day on which one of the posts was updated; the first day of
/// the year 1 where there is no post.
pub open spec fn newest_updated_of(posts: Seq<PostView>) -> DateView
    decreases posts.len(),
{
    if posts.len() == 0 {
        DateView { year: 1, month: 1, day: 1 }
    } else if posts.len() == 1 {
        posts[0].metadata.updated
    } else {
        let best = newest_updated_of(posts.drop_last());
        if posts.last().metadata.updated.after(best) {
            posts.last().metadata.updated
        } else {
            best
        }
    }
}

/// The entries of the feed as one text: a line feed before each.
pub open spec fn entries_text(entries: Seq<Seq<char>>) -> Seq<char>
    decreases entries.len(),
{
    if entries.len() == 0 {
        Seq::empty()
    } else {
        entries_text(entries.drop_last()) + seq!['\n'] + entries.last()
    }
}

/// What the feed is rendered with: the day of its latest update and its
/// entries.
pub open spec fn atom_call_of(updated: DateView, entries: Seq<char>) -> RenderCallView {
    RenderCallView {
        template: TemplateId::PageAtom,
        globals: seq![("updated"@, updated.rfc3339()), ("entries"@, entries)],
    }
}

/// What one link of the navigation of a post is rendered with.
pub open spec fn footer_nav_content_call_of(slug: Seq<char>, description: Seq<char>) -> RenderCallView {
    RenderCallView {
        template: TemplateId::FooterNavContent,
        globals: seq![("slug"@, slug), ("description"@, description)],
    }
}

/// What the navigation of a post is rendered with.
pub open spec fn footer_nav_call_of(left: Seq<char>, right: Seq<char>) -> RenderCallView {
    RenderCallView {
        template: TemplateId::FooterNav,
        globals: seq![("left_content"@, left), ("right_content"@, right)],
    }
}

/// The rendered summaries of the posts.
pub open spec fn summaries_of(posts: Seq<PostView>) -> Seq<Seq<char>> {
    Seq::new(posts.len(), |i: int| posts[i].rendered_summary)
}

/// The posts that the front page shows: the first ten, or all of them
/// where there are fewer.
pub open spec fn recent_posts(posts: Seq<PostView>) -> Seq<PostView> {
    if posts.len() > IDX_NUM_RECENT_POSTS {
        posts.take(IDX_NUM_RECENT_POSTS as int)
    } else {
        posts
    }
}

/// What the list of the front page is rendered with: the summaries of the
/// most recent posts, a line feed between each two.
pub open spec fn index_content_call_of(posts: Seq<PostView>) -> RenderCallView {
    RenderCallView {
        template: TemplateId::IndexContent,
        globals: seq![("posts"@, join(summaries_of(recent_posts(posts)), seq!['\n']))],
    }
}

/// What the list of all posts is rendered with: the summaries of all
/// posts, a line feed between each two.
pub open spec fn posts_content_call_of(posts: Seq<PostView>) -> RenderCallView {
    RenderCallView {
        template: TemplateId::PostsContent,
        globals: seq![("posts"@, join(summaries_of(posts), seq!['\n']))],
    }
}

/// The names and values that the page of a post is rendered with: those
/// of the chrome, then the day of its last update, its navigation and the
/// links of its tags, a comma and a space between each two.
pub open spec fn post_globals_of(
    generic: Seq<(Seq<char>, Seq<char>)>,
    updated: DateView,
    footer_nav: Seq<char>,
    tag_links: Seq<Seq<char>>,
) -> Seq<(Seq<char>, Seq<char>)> {
    generic + seq![
        ("date"@, updated.text()),
        ("footer-nav"@, footer_nav),
        ("tags"@, join(tag_links, seq![',', ' '])),
    ]
}

/// What the link of a tag is rendered with.
pub open spec fn tag_link_call_of(tag: Seq<char>) -> RenderCallView {
    RenderCallView { template: TemplateId::TagLink, globals: seq![("tag"@, tag)] }
}

/// The rendered summaries of the posts at the given indices.
pub open spec fn summaries_at(posts: Seq<PostView>, members: Seq<int>) -> Seq<Seq<char>> {
    Seq::new(members.len(), |k: int| posts[members[k]].rendered_summary)
}

/// What the block of a tag on the page of tags is rendered with: the tag,
/// and the summaries of its posts, a line feed between each two.
pub open spec fn tag_posts_call_of(posts: Seq<PostView>, tag: Seq<char>, members: Seq<int>) -> RenderCallView {
    RenderCallView {
        template: TemplateId::TagPosts,
        globals: seq![
            ("tag"@, tag),
            ("posts"@, join(summaries_at(posts, members), seq!['\n'])),
        ],
    }
}

/// What the common footer is rendered with.
pub fn footer_common_call(today: &Date) -> (call: RenderCall)
    ensures
        call@ == footer_common_call_of(today@),
{
    let mut globals: Globals = Vec::new();
    globals.push(pair("year", today.to_text().as_str()));
    let call = RenderCall { template: TemplateId::FooterCommon, globals };
    assert(call@.globals == footer_common_call_of(today@).globals);
    call
}

/// What the head of a page with the title `title` is rendered with.
pub fn head_call(title: &str) -> (call: RenderCall)
    ensures
        call@ == head_call_of(title@),
{
    let mut globals: Globals = Vec::new();
    globals.push(pair("title", title));
    let call = RenderCall { template: TemplateId::Head, globals };
    assert(call@.globals == head_call_of(title@).globals);
    call
}

/// The names and values of the chrome that all pages share.
pub fn generic_globals_from(head: &str, header: &str, content: &str, footer_common: &str) -> (globals:
    Globals)
    ensures
        pair_views(globals@) == generic_globals_of(head@, header@, content@, footer_common@),
{
    let mut globals: Globals = Vec::new();
    globals.push(pair("head", head));
    globals.push(pair("header", header));
    globals.push(pair("content", content));
    globals.push(pair("footer-common", footer_common));
    assert(pair_views(globals@) == generic_globals_of(head@, header@, content@, footer_common@));
    globals
}

/// What the feed entry of `post` is rendered with.
pub fn atom_entry_call(post: &Post) -> (call: RenderCall)
    ensures
        call@ == atom_entry_call_of(post@),
{
    let mut globals: Globals = Vec::new();
    globals.push(pair("title", post.metadata.title.as_str()));
    globals.push(pair("link", post.url.as_str()));
    globals.push(pair("updated", updated_datetime_str(&post.metadata.updated).as_str()));
    globals.push(pair("summary", post.metadata.summary.as_str()));
    let call = RenderCall { template: TemplateId::AtomEntry, globals };
    assert(call@.globals == atom_entry_call_of(post@).globals);
    call
}

/// The first instant of `date` in UTC, as RFC 3339 writes it.
pub fn updated_datetime_str(date: &Date) -> (text: String)
    ensures
        text@ == date@.rfc3339(),
{
    date.to_rfc3339()
}

/// The latest day on which one of the posts was updated.
pub fn newest_updated(posts: &Vec<Post>) -> (newest: Date)
    ensures
        newest@ == newest_updated_of(post_views(posts@)),
{
    if posts.len() == 0 {
        return Date::first();
    }
    let mut newest = posts[0].metadata.updated;
    assert(post_views(posts@).take(1).len() == 1);
    let mut i: usize = 1;
    while i < posts.len()
        invariant
            1 <= i <= posts.len(),
            newest@ == newest_updated_of(post_views(posts@).take(i as int)),
        decreases posts.len() - i,
    {
        assert(post_views(posts@).take(i + 1).drop_last() == post_views(posts@).take(i as int));
        if posts[i].metadata.updated.is_after(&newest) {
            newest = posts[i].metadata.updated;
        }
        i += 1;
    }
    assert(post_views(posts@).take(posts.len() as int) == post_views(posts@));
    newest
}

/// The entries of the feed as one text: a line feed before each.
pub fn atom_entries_text(entries: &Vec<String>) -> (text: String)
    ensures
        text@ == entries_text(string_views(entries@)),
{
    let mut text = String::new();
    let mut i: usize = 0;
    proof {
        reveal_strlit("\n");
        assert("\n"@ == seq!['\n']);
    }
    while i < entries.len()
        invariant
            i <= entries.len(),
            "\n"@ == seq!['\n'],
            text@ == entries_text(string_views(entries@).take(i as int)),
        decreases entries.len() - i,
    {
        assert(string_views(entries@).take(i + 1).drop_last() == string_views(entries@).take(
            i as int,
        ));
        text.append("\n");
        text.append(entries[i].as_str());
        i += 1;
    }
    assert(string_views(entries@).take(entries.len() as int) == string_views(entries@));
    text
}

/// What the feed is rendered with.
pub fn atom_call(updated: &Date, entries: &str) -> (call: RenderCall)
    ensures
        call@ == atom_call_of(updated@, entries@),
{
    let mut globals: Globals = Vec::new();
    globals.push(pair("updated", updated_datetime_str(updated).as_str()));
    globals.push(pair("entries", entries));
    let call = RenderCall { template: TemplateId::PageAtom, globals };
    assert(call@.globals == atom_call_of(updated@, entries@).globals);
    call
}

/// What one link of the navigation of a post is rendered with.
pub fn footer_nav_content_call(slug: &str, description: &str) -> (call: RenderCall)
    ensures
        call@ == footer_nav_content_call_of(slug@, description@),
{
    let mut globals: Globals = Vec::new();
    globals.push(pair("slug", slug));
    globals.push(pair("description", description));
    let call = RenderCall { template: TemplateId::FooterNavContent, globals };
    assert(call@.globals == footer_nav_content_call_of(slug@, description@).globals);
    call
}

/// What the navigation of a post is rendered with.
pub fn footer_nav_call(left_content: &str, right_content: &str) -> (call: RenderCall)
    ensures
        call@ == footer_nav_call_of(left_content@, right_content@),
{
    let mut globals: Globals = Vec::new();
    globals.push(pair("left_content", left_content));
    globals.push(pair("right_content", right_content));
    let call = RenderCall { template: TemplateId::FooterNav, globals };
    assert(call@.globals == footer_nav_call_of(left_content@, right_content@).globals);
    call
}

/// The rendered summaries of the first `count` posts, a line feed between
/// each two.
pub fn joined_summaries(posts: &Vec<Post>, count: usize) -> (text: String)
    requires
        count <= posts.len(),
    ensures
        text@ == join(summaries_of(post_views(posts@).take(count as int)), seq!['\n']),
{
    let mut summaries: Vec<String> = Vec::new();
    let mut i: usize = 0;
    while i < count
        invariant
            i <= count <= posts.len(),
            string_views(summaries@) == summaries_of(post_views(posts@).take(count as int)).take(
                i as int,
            ),
        decreases count - i,
    {
        let ghost before = string_views(summaries@);
        summaries.push(posts[i].rendered_summary.clone());
        assert(string_views(summaries@) == before.push(posts@[i as int].rendered_summary@));
        i += 1;
    }
    proof {
        reveal_strlit("\n");
        assert("\n"@ == seq!['\n']);
        let wanted = summaries_of(post_views(posts@).take(count as int));
        assert(wanted.take(count as int) == wanted);
    }
    join_strings(&summaries, "\n")
}

/// What the list of the front page is rendered with.
pub fn index_content_call(posts: &Vec<Post>) -> (call: RenderCall)
    ensures
        call@ == index_content_call_of(post_views(posts@)),
{
    let count: usize = if posts.len() > IDX_NUM_RECENT_POSTS {
        IDX_NUM_RECENT_POSTS
    } else {
        posts.len()
    };
    assert(post_views(posts@).take(count as int) == recent_posts(post_views(posts@)));
    let mut globals: Globals = Vec::new();
    globals.push(pair("posts", joined_summaries(posts, count).as_str()));
    let call = RenderCall { template: TemplateId::IndexContent, globals };
    assert(call@.globals == index_content_call_of(post_views(posts@)).globals);
    call
}

/// What the list of all posts is rendered with.
pub fn posts_content_call(posts: &Vec<Post>) -> (call: RenderCall)
    ensures
        call@ == posts_content_call_of(post_views(posts@)),
{
    assert(post_views(posts@).take(posts.len() as int) == post_views(posts@));
    let mut globals: Globals = Vec::new();
    globals.push(pair("posts", joined_summaries(posts, posts.len()).as_str()));
    let call = RenderCall { template: TemplateId::PostsContent, globals };
    assert(call@.globals == posts_content_call_of(post_views(posts@)).globals);
    call
}

/// The names and values that the page of a post is rendered with.
pub fn post_globals(generic: Globals, updated: &Date, footer_nav: &str, tag_links: &Vec<String>) -> (globals:
    Globals)
    ensures
        pair_views(globals@) == post_globals_of(
            pair_views(generic@),
            updated@,
            footer_nav@,
            string_views(tag_links@),
        ),
{
    let ghost first = pair_views(generic@);
    let mut globals = generic;
    proof {
        reveal_strlit(", ");
        assert(", "@ == seq![',', ' ']);
    }
    globals.push(pair("date", updated.to_text().as_str()));
    globals.push(pair("footer-nav", footer_nav));
    globals.push(pair("tags", join_strings(tag_links, ", ").as_str()));
    assert(pair_views(globals@) == post_globals_of(
        first,
        updated@,
        footer_nav@,
        string_views(tag_links@),
    ));
    globals
}

/// What the link of a tag is rendered with.
pub fn tag_link_call(tag: &str) -> (call: RenderCall)
    ensures
        call@ == tag_link_call_of(tag@),
{
    let mut globals: Globals = Vec::new();
    globals.push(pair("tag", tag));
    let call = RenderCall { template: TemplateId::TagLink, globals };
    assert(call@.globals == tag_link_call_of(tag@).globals);
    call
}

/// What the block of a tag on the page of tags is rendered with.
pub fn tag_posts_call(posts: &Vec<Post>, bucket: &TagBucket) -> (call: RenderCall)
    requires
        forall|k: int| 0 <= k < bucket.posts.len() ==> #[trigger] bucket.posts[k] < posts.len(),
    ensures
        call@ == tag_posts_call_of(post_views(posts@), bucket@.tag, bucket@.posts),
{
    let mut summaries: Vec<String> = Vec::new();
    let mut k: usize = 0;
    let ghost wanted = summaries_at(post_views(posts@), bucket@.posts);
    while k < bucket.posts.len()
        invariant
            k <= bucket.posts.len(),
            forall|k: int| 0 <= k < bucket.posts.len() ==> #[trigger] bucket.posts[k] < posts.len(),
            wanted == summaries_at(post_views(posts@), bucket@.posts),
            string_views(summaries@) == wanted.take(k as int),
        decreases bucket.posts.len() - k,
    {
        let ghost before = string_views(summaries@);
        let member = bucket.posts[k];
        summaries.push(posts[member].rendered_summary.clone());
        assert(string_views(summaries@) == before.push(wanted[k as int]));
        k += 1;
    }
    proof {
        reveal_strlit("\n");
        assert("\n"@ == seq!['\n']);
        assert(wanted.take(bucket.posts.len() as int) == wanted);
    }
    let mut globals: Globals = Vec::new();
    globals.push(pair("tag", bucket.tag.as_str()));
    globals.push(pair("posts", join_strings(&summaries, "\n").as_str()));
    let call = RenderCall { template: TemplateId::TagPosts, globals };
    assert(call@.globals == tag_posts_call_of(
        post_views(posts@),
        bucket@.tag,
        bucket@.posts,
    ).globals);
    call
}

/// A link of the navigation of a post: the slug of the post that it leads
/// to, where there is such a post, and what the link says.
#[derive(Clone, Debug, PartialEq, Eq)]
pub struct NavLink {
    pub slug: Option<String>,
    pub description: String,
}

/// A `NavLink` over sequences of characters.
pub struct NavLinkView {
    pub slug: Option<Seq<char>>,
    pub description: Seq<char>,
}

impl View for NavLink {
    type V = NavLinkView;

    open spec fn view(&self) -> NavLinkView {
        NavLinkView {
            slug: match self.slug {
                Some(slug) => Some(slug@),
                None => None,
            },
            description: self.description@,
        }
    }
}

/// The text of a string slice that may be there.
pub open spec fn option_str_text(text: Option<&str>) -> Option<Seq<char>> {
    match text {
        Some(text) => Some(text@),
        None => None,
    }
}

/// The links of the navigation of a post: on the left the one to the
/// previous post, on the right the one to the next post.
pub open spec fn nav_links_of(previous: Option<Seq<char>>, next: Option<Seq<char>>) -> (
    NavLinkView,
    NavLinkView,
) {
    (
        NavLinkView { slug: previous, description: "&lt previous"@ },
        NavLinkView { slug: next, description: "next &gt"@ },
    )
}

/// What a link of the navigation is rendered with; nothing where it leads
/// to no post.
pub open spec fn nav_link_call_of(link: NavLinkView) -> Option<RenderCallView> {
    match link.slug {
        Some(slug) => Some(footer_nav_content_call_of(slug, link.description)),
        None => None,
    }
}

/// What the head of the page of a post is rendered with: its title.
pub open spec fn post_head_call_of(post: PostView) -> RenderCallView {
    head_call_of(post.metadata.title)
}

/// What the page of a post is rendered with: the chrome around its
/// content, the day of its last update, its navigation and the links of
/// its tags.
pub open spec fn post_page_call_of(
    post: PostView,
    head: Seq<char>,
    header: Seq<char>,
    footer_common: Seq<char>,
    footer_nav: Seq<char>,
    tag_links: Seq<Seq<char>>,
) -> RenderCallView {
    RenderCallView {
        template: TemplateId::PagePost,
        globals: post_globals_of(
            generic_globals_of(head, header, post.content, footer_common),
            post.metadata.updated,
            footer_nav,
            tag_links,
        ),
    }
}

/// What the feed of the posts is rendered with: the day of the latest
/// update of a post, and the entries, a line feed before each.
pub open spec fn atom_page_call_of(posts: Seq<PostView>, entries: Seq<Seq<char>>) -> RenderCallView {
    atom_call_of(newest_updated_of(posts), entries_text(entries))
}

/// What a page in the chrome is rendered with, through `template`.
pub open spec fn chrome_page_call_of(
    template: TemplateId,
    head: Seq<char>,
    header: Seq<char>,
    content: Seq<char>,
    footer_common: Seq<char>,
) -> RenderCallView {
    RenderCallView {
        template,
        globals: generic_globals_of(head, header, content, footer_common),
    }
}

/// The links of a navigation: the previous slug on the left, the next slug
/// on the right.
pub fn footer_nav_links(prev_slug: Option<&str>, next_slug: Option<&str>) -> (links: (
    NavLink,
    NavLink,
))
    ensures
        (links.0@, links.1@) == nav_links_of(
            option_str_text(prev_slug),
            option_str_text(next_slug),
        ),
{
    let left = NavLink {
        slug: match prev_slug {
            Some(slug) => Some(slug.to_owned()),
            None => None,
        },
        description: "&lt previous".to_owned(),
    };
    let right = NavLink {
        slug: match next_slug {
            Some(slug) => Some(slug.to_owned()),
            None => None,
        },
        description: "next &gt".to_owned(),
    };
    (left, right)
}

/// The links of the navigation of the post at `index`: on the left the
/// one to the next older post, on the right the one to the next newer post.
pub fn post_nav_links(posts: &Vec<Post>, index: usize) -> (links: (NavLink, NavLink))
    ensures
        (links.0@, links.1@) == nav_links_of(
            previous_of(post_views(posts@), index as int),
            next_of(post_views(posts@), index as int),
        ),
{
    let (previous, next) = neighbors(posts, index);
    let left = NavLink { slug: previous, description: "&lt previous".to_owned() };
    let right = NavLink { slug: next, description: "next &gt".to_owned() };
    (left, right)
}

/// What the link is rendered with; nothing where it leads to no post.
pub fn nav_link_call(link: &NavLink) -> (call: Option<RenderCall>)
    ensures
        match call {
            Some(call) => Some(call@) == nav_link_call_of(link@),
            None => nav_link_call_of(link@) is None,
        },
{
    match &link.slug {
        Some(slug) => Some(footer_nav_content_call(slug.as_str(), link.description.as_str())),
        None => None,
    }
}

/// What the head of the page of `post` is rendered with.
pub fn post_head_call(post: &Post) -> (call: RenderCall)
    ensures
        call@ == post_head_call_of(post@),
{
    head_call(post.metadata.title.as_str())
}

/// What the page of `post` is rendered with, given its rendered parts.
pub fn post_page_call(
    post: &Post,
    head: &str,
    header: &str,
    footer_common: &str,
    footer_nav: &str,
    tag_links: &Vec<String>,
) -> (call: RenderCall)
    ensures
        call@ == post_page_call_of(
            post@,
            head@,
            header@,
            footer_common@,
            footer_nav@,
            string_views(tag_links@),
        ),
{
    let generic = generic_globals_from(head, header, post.content.as_str(), footer_common);
    let globals = post_globals(generic, &post.metadata.updated, footer_nav, tag_links);
    RenderCall { template: TemplateId::PagePost, globals }
}

/// What the feed of the posts is rendered with, given its rendered
/// entries.
pub fn atom_page_call(posts: &Vec<Post>, entries: &Vec<String>) -> (call: RenderCall)
    ensures
        call@ == atom_page_call_of(post_views(posts@), string_views(entries@)),
{
    let updated = newest_updated(posts);
    let text = atom_entries_text(entries);
    atom_call(&updated, text.as_str())
}

/// What the head of the about page is rendered with.
pub fn about_head_call() -> (call: RenderCall)
    ensures
        call@ == head_call_of("About"@),
{
    head_call("About")
}

/// What the about page is rendered with: the about block in the chrome.
pub fn about_page_call(head: &str, blocks: &TemplateBlockStrings, footer_common: &str) -> (call:
    RenderCall)
    ensures
        call@ == chrome_page_call_of(
            TemplateId::PageAbout,
            head@,
            blocks.header@,
            blocks.about@,
            footer_common@,
        ),
{
    let globals = generic_globals_from(
        head,
        blocks.header.as_str(),
        blocks.about.as_str(),
        footer_common,
    );
    RenderCall { template: TemplateId::PageAbout, globals }
}

/// What the head of the page for what is not found is rendered with.
pub fn notfound_head_call() -> (call: RenderCall)
    ensures
        call@ == head_call_of("Not Found"@),
{
    head_call("Not Found")
}

/// What the page for what is not found is rendered with: the block for it
/// in the chrome, through the generic template.
pub fn notfound_page_call(head: &str, blocks: &TemplateBlockStrings, footer_common: &str) -> (call:
    RenderCall)
    ensures
        call@ == chrome_page_call_of(
            TemplateId::PageGeneric,
            head@,
            blocks.header@,
            blocks.notfound@,
            footer_common@,
        ),
{
    let globals = generic_globals_from(
        head,
        blocks.header.as_str(),
        blocks.notfound.as_str(),
        footer_common,
    );
    RenderCall { template: TemplateId::PageGeneric, globals }
}

/// What the head of the front page is rendered with.
pub fn index_head_call() -> (call: RenderCall)
    ensures
        call@ == head_call_of("Home"@),
{
    head_call("Home")
}

/// What a page in the chrome is rendered with, through `template`.
pub fn chrome_page_call(
    template: TemplateId,
    head: &str,
    header: &str,
    content: &str,
    footer_common: &str,
) -> (call: RenderCall)
    ensures
        call@ == chrome_page_call_of(template, head@, header@, content@, footer_common@),
{
    let globals = generic_globals_from(head, header, content, footer_common);
    RenderCall { template, globals }
}

/// With at least one post, the day of the latest update is the day of
/// some post, and no post was updated after it.
pub proof fn lemma_newest_updated_is_maximum(posts: Seq<PostView>)
    requires
        posts.len() > 0,
    ensures
        exists|i: int| 0 <= i < posts.len() && (#[trigger] posts[i]).metadata.updated
            == newest_updated_of(posts),
        forall|j: int| 0 <= j < posts.len() ==> !(#[trigger] posts[j]).metadata.updated.after(
            newest_updated_of(posts),
        ),
    decreases posts.len(),
{
    if posts.len() == 1 {
        assert(posts[0].metadata.updated == newest_updated_of(posts));
    } else {
        let rest = posts.drop_last();
        lemma_newest_updated_is_maximum(rest);
        let best = newest_updated_of(rest);
        let i0 = choose|i: int| 0 <= i < rest.len() && (#[trigger] rest[i]).metadata.updated == best;
        if posts.last().metadata.updated.after(best) {
            assert(posts[posts.len() - 1].metadata.updated == newest_updated_of(posts));
        } else {
            assert(posts[i0] == rest[i0]);
        }
        assert forall|j: int| 0 <= j < posts.len() implies !(#[trigger] posts[j]).metadata.updated.after(
            newest_updated_of(posts),
        ) by {
            if j < rest.len() {
                assert(posts[j] == rest[j]);
            }
        }
    }
}

} // verus!
