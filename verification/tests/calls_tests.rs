use speedy::calls::{
    about_head_call, about_page_call, atom_call, atom_entries_text, atom_entry_call,
    atom_page_call, chrome_page_call, footer_common_call, footer_nav_call,
    footer_nav_content_call, footer_nav_links, generic_globals_from, head_call,
    index_content_call, index_head_call, joined_summaries, nav_link_call, newest_updated,
    notfound_head_call, notfound_page_call, post_globals, post_head_call, post_nav_links,
    post_page_call, posts_content_call, tag_link_call, tag_posts_call, updated_datetime_str,
    NavLink, IDX_NUM_RECENT_POSTS,
};
use speedy::date::Date;
use speedy::metadata::Metadata;
use speedy::post::Post;
use speedy::relations::TagBucket;
use speedy::templates::{RenderCall, TemplateBlockStrings, TemplateId};

fn post(slug: &str, updated: &str) -> Post {
    let text = format!(
        "title: T {slug}\nslug: {slug}\ncreated: 2020-01-01\nupdated: {updated}\ntags: a\nsummary: S {slug}\n"
    );
    Post::from_parts(Metadata::new(&text).unwrap(), String::new(), format!("[{slug}]"))
}

fn pairs(list: &[(&str, &str)]) -> Vec<(String, String)> {
    list.iter().map(|(k, v)| (k.to_string(), v.to_string())).collect()
}

fn many(n: usize) -> Vec<Post> {
    (0..n).map(|i| post(&format!("s{i}"), "2023-01-01")).collect()
}

#[test]
fn front_page_shows_ten() {
    assert_eq!(IDX_NUM_RECENT_POSTS, 10);
}

#[test]
fn footer_common_gets_the_day() {
    let call = footer_common_call(&Date::new(2024, 2, 29).unwrap());
    assert_eq!(
        call,
        RenderCall { template: TemplateId::FooterCommon, globals: pairs(&[("year", "2024-02-29")]) }
    );
}

#[test]
fn head_gets_the_title() {
    assert_eq!(
        head_call("Home"),
        RenderCall { template: TemplateId::Head, globals: pairs(&[("title", "Home")]) }
    );
}

#[test]
fn chrome_has_four_names() {
    assert_eq!(
        generic_globals_from("H", "B", "C", "F"),
        pairs(&[("head", "H"), ("header", "B"), ("content", "C"), ("footer-common", "F")])
    );
}

#[test]
fn atom_entry_gets_title_link_update_and_summary() {
    let call = atom_entry_call(&post("s1", "2023-06-15"));
    assert_eq!(call.template, TemplateId::AtomEntry);
    assert_eq!(
        call.globals,
        pairs(&[
            ("title", "T s1"),
            ("link", "https://blog.mplanchard.com/posts/s1.html"),
            ("updated", "2023-06-15T00:00:00+00:00"),
            ("summary", "S s1"),
        ])
    );
}

#[test]
fn updated_datetime_is_rfc3339() {
    assert_eq!(updated_datetime_str(&Date::new(2023, 3, 1).unwrap()), "2023-03-01T00:00:00+00:00");
}

#[test]
fn newest_update_is_the_latest_day() {
    let posts = vec![post("a", "2023-01-01"), post("b", "2023-06-15"), post("c", "2023-03-01")];
    assert_eq!(newest_updated(&posts), Date::new(2023, 6, 15).unwrap());
    assert_eq!(updated_datetime_str(&newest_updated(&posts)), "2023-06-15T00:00:00+00:00");
}

#[test]
fn newest_update_of_one_and_of_none() {
    assert_eq!(newest_updated(&vec![post("a", "0000-05-05")]), Date::new(0, 5, 5).unwrap());
    assert_eq!(newest_updated(&Vec::new()), Date::first());
    let tie = vec![post("a", "2023-01-01"), post("b", "2023-01-01")];
    assert_eq!(newest_updated(&tie), Date::new(2023, 1, 1).unwrap());
}

#[test]
fn entries_have_a_line_feed_before_each() {
    assert_eq!(atom_entries_text(&vec!["e1".to_string(), "e2".to_string()]), "\ne1\ne2");
    assert_eq!(atom_entries_text(&Vec::new()), "");
}

#[test]
fn atom_gets_update_and_entries() {
    let call = atom_call(&Date::new(2023, 6, 15).unwrap(), "\ne1");
    assert_eq!(call.template, TemplateId::PageAtom);
    assert_eq!(call.globals, pairs(&[("updated", "2023-06-15T00:00:00+00:00"), ("entries", "\ne1")]));
}

#[test]
fn footer_nav_calls() {
    assert_eq!(
        footer_nav_content_call("s1", "next &gt"),
        RenderCall {
            template: TemplateId::FooterNavContent,
            globals: pairs(&[("slug", "s1"), ("description", "next &gt")]),
        }
    );
    assert_eq!(
        footer_nav_call("L", ""),
        RenderCall {
            template: TemplateId::FooterNav,
            globals: pairs(&[("left_content", "L"), ("right_content", "")]),
        }
    );
}

#[test]
fn joined_summaries_takes_the_first() {
    let posts = many(3);
    assert_eq!(joined_summaries(&posts, 2), "[s0]\n[s1]");
    assert_eq!(joined_summaries(&posts, 0), "");
    assert_eq!(joined_summaries(&posts, 3), "[s0]\n[s1]\n[s2]");
}

#[test]
fn index_shows_the_ten_most_recent_of_fifteen() {
    let posts = many(15);
    let call = index_content_call(&posts);
    assert_eq!(call.template, TemplateId::IndexContent);
    assert_eq!(
        call.globals,
        pairs(&[("posts", "[s0]\n[s1]\n[s2]\n[s3]\n[s4]\n[s5]\n[s6]\n[s7]\n[s8]\n[s9]")])
    );
}

#[test]
fn index_shows_all_of_few() {
    assert_eq!(index_content_call(&many(2)).globals, pairs(&[("posts", "[s0]\n[s1]")]));
    assert_eq!(index_content_call(&many(0)).globals, pairs(&[("posts", "")]));
    let ten = index_content_call(&many(10)).globals;
    assert_eq!(ten[0].1.lines().count(), 10);
    let eleven = index_content_call(&many(11)).globals;
    assert_eq!(eleven[0].1.lines().count(), 10);
}

#[test]
fn posts_page_shows_all_fifteen() {
    let call = posts_content_call(&many(15));
    assert_eq!(call.template, TemplateId::PostsContent);
    assert_eq!(call.globals.len(), 1);
    assert_eq!(call.globals[0].0, "posts");
    let lines: Vec<&str> = call.globals[0].1.lines().collect();
    assert_eq!(lines.len(), 15);
    assert_eq!(lines[0], "[s0]");
    assert_eq!(lines[14], "[s14]");
}

#[test]
fn post_page_adds_date_navigation_and_tags() {
    let generic = generic_globals_from("H", "B", "C", "F");
    let links = vec!["<a>x</a>".to_string(), "<a>y</a>".to_string()];
    let globals = post_globals(generic, &Date::new(2023, 1, 2).unwrap(), "NAV", &links);
    assert_eq!(
        globals,
        pairs(&[
            ("head", "H"),
            ("header", "B"),
            ("content", "C"),
            ("footer-common", "F"),
            ("date", "2023-01-02"),
            ("footer-nav", "NAV"),
            ("tags", "<a>x</a>, <a>y</a>"),
        ])
    );
}

#[test]
fn tag_calls() {
    assert_eq!(
        tag_link_call("rust"),
        RenderCall { template: TemplateId::TagLink, globals: pairs(&[("tag", "rust")]) }
    );
    let posts = many(4);
    let bucket = TagBucket { tag: "rust".to_string(), posts: vec![0, 2, 3] };
    assert_eq!(
        tag_posts_call(&posts, &bucket),
        RenderCall {
            template: TemplateId::TagPosts,
            globals: pairs(&[("tag", "rust"), ("posts", "[s0]\n[s2]\n[s3]")]),
        }
    );
}

fn link(slug: Option<&str>, description: &str) -> NavLink {
    NavLink { slug: slug.map(|s| s.to_string()), description: description.to_string() }
}

fn blocks() -> TemplateBlockStrings {
    TemplateBlockStrings {
        about: "ABOUT".to_string(),
        header: "HEADER".to_string(),
        notfound: "NOTFOUND".to_string(),
    }
}

#[test]
fn previous_goes_left_and_next_goes_right() {
    assert_eq!(
        footer_nav_links(Some("older"), Some("newer")),
        (link(Some("older"), "&lt previous"), link(Some("newer"), "next &gt"))
    );
    assert_eq!(
        footer_nav_links(None, Some("newer")),
        (link(None, "&lt previous"), link(Some("newer"), "next &gt"))
    );
    assert_eq!(
        footer_nav_links(None, None),
        (link(None, "&lt previous"), link(None, "next &gt"))
    );
}

#[test]
fn a_post_links_to_the_older_on_the_left() {
    let posts = vec![post("newest", "2023-01-01"), post("middle", "2023-01-01"), post("oldest", "2023-01-01")];
    assert_eq!(
        post_nav_links(&posts, 1),
        (link(Some("oldest"), "&lt previous"), link(Some("newest"), "next &gt"))
    );
    assert_eq!(
        post_nav_links(&posts, 0),
        (link(Some("middle"), "&lt previous"), link(None, "next &gt"))
    );
    assert_eq!(
        post_nav_links(&posts, 2),
        (link(None, "&lt previous"), link(Some("middle"), "next &gt"))
    );
}

#[test]
fn a_link_without_slug_is_not_rendered() {
    assert_eq!(nav_link_call(&link(None, "next &gt")), None);
    assert_eq!(
        nav_link_call(&link(Some("s"), "next &gt")),
        Some(footer_nav_content_call("s", "next &gt"))
    );
}

#[test]
fn the_page_of_a_post_gets_its_updated_day() {
    let text = "title: The Title\nslug: the-slug\ncreated: 2023-01-02\nupdated: 2023-03-04\ntags: web, rust\nsummary: S\n";
    let p = Post::from_parts(Metadata::new(text).unwrap(), "<p>body</p>".to_string(), String::new());
    assert_eq!(post_head_call(&p), head_call("The Title"));
    let links = vec!["[web]".to_string(), "[rust]".to_string()];
    let call = post_page_call(&p, "HEAD", "HEADER", "FOOTER", "NAV", &links);
    assert_eq!(call.template, TemplateId::PagePost);
    assert_eq!(
        call.globals,
        pairs(&[
            ("head", "HEAD"),
            ("header", "HEADER"),
            ("content", "<p>body</p>"),
            ("footer-common", "FOOTER"),
            ("date", "2023-03-04"),
            ("footer-nav", "NAV"),
            ("tags", "[web], [rust]"),
        ])
    );
}

#[test]
fn the_feed_gets_the_latest_update() {
    let posts = vec![post("a", "2023-01-01"), post("b", "2023-06-15"), post("c", "2023-03-01")];
    let entries = vec!["E1".to_string(), "E2".to_string(), "E3".to_string()];
    assert_eq!(
        atom_page_call(&posts, &entries),
        atom_call(&Date::new(2023, 6, 15).unwrap(), "\nE1\nE2\nE3")
    );
}

#[test]
fn chrome_pages_get_their_block_and_title() {
    assert_eq!(about_head_call(), head_call("About"));
    assert_eq!(notfound_head_call(), head_call("Not Found"));
    assert_eq!(index_head_call(), head_call("Home"));
    assert_eq!(
        about_page_call("H", &blocks(), "F"),
        RenderCall {
            template: TemplateId::PageAbout,
            globals: generic_globals_from("H", "HEADER", "ABOUT", "F"),
        }
    );
    assert_eq!(
        notfound_page_call("H", &blocks(), "F"),
        RenderCall {
            template: TemplateId::PageGeneric,
            globals: generic_globals_from("H", "HEADER", "NOTFOUND", "F"),
        }
    );
    assert_eq!(
        chrome_page_call(TemplateId::PageIndex, "H", "B", "C", "F"),
        RenderCall {
            template: TemplateId::PageIndex,
            globals: generic_globals_from("H", "B", "C", "F"),
        }
    );
}
