use speedy::collection::{
    collect_posts, files_from_dir, is_post_file, sort_posts, DirEntry, SiteError, SourceFile,
};
use speedy::date::Date;
use speedy::markdown::{get_md_opts, md_to_html, MarkdownOptions};
use speedy::metadata::{Metadata, ParseError};
use speedy::post::{post_body, Post, URL_BASE};
use speedy::templates::{build_parser, parse_template_str, TemplateId};

fn header(slug: &str, created: &str, updated: &str, tags: &str) -> String {
    format!(
        "title: Title of {slug}\nslug: {slug}\ncreated: {created}\nupdated: {updated}\ntags: {tags}\nsummary: About {slug}\n"
    )
}

fn post(slug: &str, created: &str) -> Post {
    let metadata = Metadata::new(&header(slug, created, created, "a")).unwrap();
    Post::from_parts(metadata, format!("<p>{slug}</p>"), format!("[{slug}]"))
}

fn slugs(posts: &Vec<Post>) -> Vec<String> {
    posts.iter().map(|p| p.metadata.slug.clone()).collect()
}

fn summary_template() -> liquid::Template {
    let parser = build_parser().unwrap();
    parse_template_str(&parser, TemplateId::PostsPost, "{{slug}}|{{title}}|{{summary}}").unwrap()
}

fn file(name: &str, text: String) -> SourceFile {
    SourceFile { name: name.to_string(), text }
}

#[test]
fn post_files_are_regular_and_not_hidden() {
    assert!(is_post_file("a.md", true));
    assert!(is_post_file("a", true));
    assert!(!is_post_file("a.md", false));
    assert!(!is_post_file(".DS_Store", true));
    assert!(!is_post_file("", true));
    assert!(is_post_file("a.b.md", true));
}

#[test]
fn files_from_dir_keeps_posts_in_order() {
    let entries = vec![
        DirEntry { name: "b.md".to_string(), is_file: true },
        DirEntry { name: ".hidden".to_string(), is_file: true },
        DirEntry { name: "drafts".to_string(), is_file: false },
        DirEntry { name: "".to_string(), is_file: true },
        DirEntry { name: "a.md".to_string(), is_file: true },
    ];
    assert_eq!(files_from_dir(&entries), vec!["b.md".to_string(), "a.md".to_string()]);
    assert_eq!(files_from_dir(&Vec::new()), Vec::<String>::new());
}

#[test]
fn body_is_what_follows_the_header() {
    let text = format!("{}\n# Hello\n\nBody *text*.\n", header("s", "2023-01-01", "2023-01-01", "a"));
    assert_eq!(post_body(&text), "\n# Hello\n\nBody *text*.");
    assert_eq!(post_body(&header("s", "2023-01-01", "2023-01-01", "a")), "");
    assert_eq!(post_body("one\ntwo"), "");
    assert_eq!(post_body("1\n2\n3\n4\n5\n6\nseven\r\neight\r\n"), "seven\neight");
}

#[test]
fn markdown_options_switch_on_all_three() {
    assert_eq!(
        get_md_opts(),
        MarkdownOptions { tables: true, footnotes: true, strikethrough: true }
    );
}

#[test]
fn markdown_becomes_html() {
    let opts = get_md_opts();
    assert_eq!(md_to_html("Hello *world*", opts), "<p>Hello <em>world</em></p>\n");
    assert_eq!(md_to_html("~~gone~~", opts), "<p><del>gone</del></p>\n");
    assert!(md_to_html("| a | b |\n|---|---|\n| 1 | 2 |\n", opts).contains("<table>"));
    assert!(md_to_html("x[^1]\n\n[^1]: note\n", opts).contains("footnote"));
    assert_eq!(md_to_html("", opts), "");
}

#[test]
fn markdown_extensions_can_be_off() {
    let none = MarkdownOptions { tables: false, footnotes: false, strikethrough: false };
    assert_eq!(md_to_html("~~gone~~", none), "<p>~~gone~~</p>\n");
    assert!(!md_to_html("| a | b |\n|---|---|\n| 1 | 2 |\n", none).contains("<table>"));
}

#[test]
fn post_from_parts_has_the_address_of_its_slug() {
    let p = post("first-post", "2023-01-01");
    assert_eq!(URL_BASE, "https://blog.mplanchard.com");
    assert_eq!(p.url, "https://blog.mplanchard.com/posts/first-post.html");
    assert_eq!(p.content, "<p>first-post</p>");
    assert_eq!(p.rendered_summary, "[first-post]");
    assert_eq!(p.metadata.slug, "first-post");
}

#[test]
fn post_new_renders_its_summary() {
    let metadata = Metadata::new(&header("s1", "2023-01-01", "2023-01-02", "a")).unwrap();
    let p = Post::new(&summary_template(), metadata.clone(), "<p>x</p>".to_string()).unwrap();
    assert_eq!(p.rendered_summary, "s1|Title of s1|About s1");
    assert_eq!(p.metadata, metadata);
    assert_eq!(p.content, "<p>x</p>");
    assert_eq!(p.url, "https://blog.mplanchard.com/posts/s1.html");
}

#[test]
fn sort_is_newest_first() {
    let posts = vec![post("b", "2023-03-01"), post("c", "2023-06-15"), post("a", "2023-01-01")];
    assert_eq!(slugs(&sort_posts(posts)), vec!["c", "b", "a"]);
}

#[test]
fn sort_keeps_the_order_within_a_day() {
    let posts = vec![
        post("x1", "2023-03-01"),
        post("y1", "2023-06-15"),
        post("x2", "2023-03-01"),
        post("z1", "2022-12-31"),
        post("y2", "2023-06-15"),
        post("x3", "2023-03-01"),
    ];
    assert_eq!(slugs(&sort_posts(posts)), vec!["y1", "y2", "x1", "x2", "x3", "z1"]);
}

#[test]
fn sort_of_few_posts() {
    assert_eq!(sort_posts(Vec::new()), Vec::<Post>::new());
    assert_eq!(slugs(&sort_posts(vec![post("a", "2023-01-01")])), vec!["a"]);
    let same = vec![post("a", "2023-01-01"), post("b", "2023-01-01")];
    assert_eq!(slugs(&sort_posts(same)), vec!["a", "b"]);
}

#[test]
fn sort_orders_across_months_and_years() {
    let posts = vec![
        post("a", "2021-12-31"),
        post("b", "2022-01-01"),
        post("c", "2022-01-31"),
        post("d", "2022-02-01"),
    ];
    assert_eq!(slugs(&sort_posts(posts)), vec!["d", "c", "b", "a"]);
}

#[test]
fn collect_posts_loads_and_sorts() {
    let files = vec![
        file("old.md", format!("{}\nold *body*\n", header("old", "2022-01-01", "2022-01-01", "a"))),
        file("new.md", format!("{}\nnew body\n", header("new", "2023-01-01", "2023-02-01", "b"))),
    ];
    let posts = collect_posts(&summary_template(), &files).unwrap();
    assert_eq!(slugs(&posts), vec!["new", "old"]);
    assert_eq!(posts[1].content, "<p>old <em>body</em></p>\n");
    assert_eq!(posts[0].rendered_summary, "new|Title of new|About new");
    assert_eq!(posts[0].metadata.updated, Date::new(2023, 2, 1).unwrap());
    assert_eq!(posts[0].url, "https://blog.mplanchard.com/posts/new.html");
}

#[test]
fn collect_posts_names_the_first_file_that_fails() {
    let files = vec![
        file("good.md", header("good", "2022-01-01", "2022-01-01", "a")),
        file("bad.md", header("bad", "2022-13-01", "2022-01-01", "a")),
        file("worse.md", "no header".to_string()),
    ];
    assert_eq!(
        collect_posts(&summary_template(), &files),
        Err(SiteError::Parse {
            file: "bad.md".to_string(),
            error: ParseError::MalformedDate("2022-13-01".to_string()),
        })
    );
}

#[test]
fn collect_posts_of_no_files() {
    assert_eq!(collect_posts(&summary_template(), &Vec::new()), Ok(Vec::new()));
}
