use speedy::collection::{SiteError, SourceFile};
use speedy::date::Date;
use speedy::generate;
use speedy::metadata::ParseError;
use speedy::render::{Context, ContextData, Document, PreRenderedTemplates};
use speedy::calls::NavLink;
use speedy::templates::{
    build_parser, parse_template_str, PageTemplates, RenderError, SnippetTemplates,
    TemplateBlockStrings, TemplateError, TemplateId, TemplatePageStrings, TemplateSnippetStrings,
    TemplateStrings, Templates,
};

fn strings() -> TemplateStrings {
    let chrome = "{{head}}{{header}}<main>{{content}}</main>{{footer-common}}";
    TemplateStrings {
        blocks: TemplateBlockStrings {
            about: "About me".to_string(),
            header: "<header/>".to_string(),
            notfound: "Not here".to_string(),
        },
        pages: TemplatePageStrings {
            about: format!("ABOUT:{chrome}"),
            atom: "<feed><updated>{{updated}}</updated>{{entries}}</feed>".to_string(),
            generic: format!("GENERIC:{chrome}"),
            index: format!("INDEX:{chrome}"),
            post: "POST:{{head}}{{header}}<article>{{content}}</article><p>{{date}}</p><p>{{tags}}</p>{{footer-nav}}{{footer-common}}".to_string(),
        },
        snippets: TemplateSnippetStrings {
            atom_entry: "<entry>{{title}}|{{link}}|{{updated}}|{{summary}}</entry>".to_string(),
            footer_common: "<footer>{{year}}</footer>".to_string(),
            footer_nav_content: "<a href=\"/posts/{{slug}}.html\">{{description}}</a>".to_string(),
            footer_nav: "<nav>{{left_content}}|{{right_content}}</nav>".to_string(),
            head: "<head>{{title}}</head>".to_string(),
            index_content: "<ul>{{posts}}</ul>".to_string(),
            posts_content: "<ol>{{posts}}</ol>".to_string(),
            posts_post: "<li>{{slug}}:{{title}}:{{summary}}</li>".to_string(),
            tag_link: "<a href=\"#{{tag}}\">{{tag}}</a>".to_string(),
            tag_posts: "<h2>{{tag}}</h2>{{posts}}".to_string(),
        },
    }
}

fn file(slug: &str, created: &str, updated: &str, tags: &str) -> SourceFile {
    SourceFile {
        name: format!("{slug}.md"),
        text: format!(
            "title: Title {slug}\nslug: {slug}\ncreated: {created}\nupdated: {updated}\ntags: {tags}\nsummary: Sum {slug}\n\nBody of *{slug}*\n"
        ),
    }
}

fn three() -> Vec<SourceFile> {
    vec![
        file("a", "2023-01-01", "2023-01-01", "rust, blog"),
        file("b", "2023-03-01", "2023-06-15", "blog"),
        file("c", "2023-02-01", "2023-03-01", "rust"),
    ]
}

fn today() -> Date {
    Date::new(2024, 5, 6).unwrap()
}

fn find<'a>(docs: &'a Vec<Document>, path: &str) -> &'a str {
    docs.iter().find(|d| d.path == path).map(|d| d.content.as_str()).unwrap()
}

const FOOT: &str = "<footer>2024-05-06</footer>";

#[test]
fn generate_gives_every_document_at_its_path() {
    let docs = generate(strings(), &three(), &today()).unwrap();
    let paths: Vec<&str> = docs.iter().map(|d| d.path.as_str()).collect();
    assert_eq!(
        paths,
        vec![
            "about.html",
            "atom.xml",
            "index.html",
            "notfound.html",
            "posts/b.html",
            "posts/c.html",
            "posts/a.html",
            "posts.html",
            "tags.html",
        ]
    );
}

#[test]
fn generate_renders_the_chrome_pages() {
    let docs = generate(strings(), &three(), &today()).unwrap();
    assert_eq!(
        find(&docs, "about.html"),
        format!("ABOUT:<head>About</head><header/><main>About me</main>{FOOT}")
    );
    assert_eq!(
        find(&docs, "notfound.html"),
        format!("GENERIC:<head>Not Found</head><header/><main>Not here</main>{FOOT}")
    );
    assert_eq!(
        find(&docs, "index.html"),
        format!(
            "INDEX:<head>Home</head><header/><main><ul><li>b:Title b:Sum b</li>\n<li>c:Title c:Sum c</li>\n<li>a:Title a:Sum a</li></ul></main>{FOOT}"
        )
    );
    assert_eq!(
        find(&docs, "posts.html"),
        format!(
            "GENERIC:<head>Posts</head><header/><main><ol><li>b:Title b:Sum b</li>\n<li>c:Title c:Sum c</li>\n<li>a:Title a:Sum a</li></ol></main>{FOOT}"
        )
    );
}

#[test]
fn generate_renders_the_pages_of_the_posts() {
    let docs = generate(strings(), &three(), &today()).unwrap();
    assert_eq!(
        find(&docs, "posts/c.html"),
        format!(
            "POST:<head>Title c</head><header/><article><p>Body of <em>c</em></p>\n</article><p>2023-03-01</p><p><a href=\"#rust\">rust</a></p><nav><a href=\"/posts/a.html\">&lt previous</a>|<a href=\"/posts/b.html\">next &gt</a></nav>{FOOT}"
        )
    );
    assert!(find(&docs, "posts/b.html")
        .contains("<nav><a href=\"/posts/c.html\">&lt previous</a>|</nav>"));
    assert!(find(&docs, "posts/a.html")
        .contains("<nav>|<a href=\"/posts/c.html\">next &gt</a></nav>"));
    assert!(find(&docs, "posts/a.html")
        .contains("<p><a href=\"#rust\">rust</a>, <a href=\"#blog\">blog</a></p>"));
}

#[test]
fn generate_renders_the_tags_in_the_order_of_a_dictionary() {
    let docs = generate(strings(), &three(), &today()).unwrap();
    assert_eq!(
        find(&docs, "tags.html"),
        format!(
            "GENERIC:<head>Tags</head><header/><main><h2>blog</h2><li>b:Title b:Sum b</li>\n<li>a:Title a:Sum a</li>\n<h2>rust</h2><li>c:Title c:Sum c</li>\n<li>a:Title a:Sum a</li></main>{FOOT}"
        )
    );
}

#[test]
fn feed_is_updated_on_the_latest_day() {
    let files = vec![
        file("a", "2023-01-01", "2023-01-01", "x"),
        file("b", "2023-01-01", "2023-06-15", "x"),
        file("c", "2023-01-01", "2023-03-01", "x"),
    ];
    let docs = generate(strings(), &files, &today()).unwrap();
    let feed = find(&docs, "atom.xml");
    assert!(feed.starts_with("<feed><updated>2023-06-15T00:00:00+00:00</updated>"));
    assert_eq!(
        feed,
        "<feed><updated>2023-06-15T00:00:00+00:00</updated>\n<entry>Title a|https://blog.mplanchard.com/posts/a.html|2023-01-01T00:00:00+00:00|Sum a</entry>\n<entry>Title b|https://blog.mplanchard.com/posts/b.html|2023-06-15T00:00:00+00:00|Sum b</entry>\n<entry>Title c|https://blog.mplanchard.com/posts/c.html|2023-03-01T00:00:00+00:00|Sum c</entry></feed>"
    );
}

#[test]
fn fifteen_posts_give_ten_on_the_front_page() {
    let files: Vec<SourceFile> = (1..=15)
        .map(|i| file(&format!("p{i:02}"), &format!("2023-01-{i:02}"), "2023-02-01", "x"))
        .collect();
    let docs = generate(strings(), &files, &today()).unwrap();
    let index = find(&docs, "index.html");
    let shown: Vec<&str> = index.matches("<li>").collect();
    assert_eq!(shown.len(), 10);
    let mut last = 0;
    for i in (6..=15).rev() {
        let at = index.find(&format!("<li>p{i:02}:")).unwrap();
        assert!(at >= last);
        last = at;
    }
    for i in 1..=5 {
        assert!(!index.contains(&format!("<li>p{i:02}:")));
    }
    let posts = find(&docs, "posts.html");
    assert_eq!(posts.matches("<li>").count(), 15);
    assert_eq!(docs.len(), 6 + 15);
}

#[test]
fn a_missing_tags_field_stops_the_run() {
    let mut files = three();
    files[1].text = files[1].text.replace("tags: blog\n", "topics: blog\n");
    let r = generate(strings(), &files, &today());
    assert_eq!(
        r,
        Err(SiteError::Parse {
            file: "b.md".to_string(),
            error: ParseError::MissingHeaderField("tags".to_string()),
        })
    );
    assert_eq!(r.unwrap_err().message(), "b.md: missing header field: tags");
}

#[test]
fn error_messages_name_what_failed() {
    assert_eq!(
        ParseError::MalformedDate("x".to_string()).message(),
        "malformed date: x"
    );
    assert_eq!(
        ParseError::MalformedHeaderLine("y".to_string()).message(),
        "malformed header line: y"
    );
    assert_eq!(
        ParseError::MalformedTagList("".to_string()).message(),
        "malformed tag list: "
    );
}

#[test]
fn generating_twice_gives_the_same() {
    let first = generate(strings(), &three(), &today()).unwrap();
    let second = generate(strings(), &three(), &today()).unwrap();
    assert_eq!(first, second);
}

#[test]
fn a_template_that_does_not_compile_is_named() {
    let mut s = strings();
    s.snippets.tag_link = "{% if %}".to_string();
    match generate(s, &three(), &today()) {
        Err(SiteError::Template(e)) => assert_eq!(e.template, "snippets/tag-link.html"),
        other => panic!("{:?}", other),
    }
    let mut s = strings();
    s.pages.about = "{{".to_string();
    match generate(s, &three(), &today()) {
        Err(SiteError::Template(e)) => assert_eq!(e.template, "pages/about.html"),
        other => panic!("{:?}", other),
    }
}

#[test]
fn a_document_that_does_not_render_is_named() {
    let mut s = strings();
    s.snippets.head = "{{title | minus: 1}}{{missing}}".to_string();
    match generate(s, &three(), &today()) {
        Err(SiteError::Render(e)) => assert_eq!(e.document, "head"),
        other => panic!("{:?}", other),
    }
    let mut s = strings();
    s.snippets.posts_post = "{{nothing}}".to_string();
    match generate(s, &three(), &today()) {
        Err(SiteError::Render(e)) => assert_eq!(e.document, "post summary: a"),
        other => panic!("{:?}", other),
    }
}

#[test]
fn a_site_without_posts() {
    let docs = generate(strings(), &Vec::new(), &today()).unwrap();
    assert_eq!(docs.len(), 6);
    assert_eq!(find(&docs, "atom.xml"), "<feed><updated>0001-01-01T00:00:00+00:00</updated></feed>");
    assert_eq!(
        find(&docs, "tags.html"),
        format!("GENERIC:<head>Tags</head><header/><main></main>{FOOT}")
    );
}

#[test]
fn context_renders_single_documents() {
    let data = ContextData::new(strings(), &three(), &today()).unwrap();
    let context = Context::new(&data);
    assert_eq!(context.posts().len(), 3);
    assert_eq!(context.tags().buckets.len(), 2);
    assert_eq!(context.render_head_block("X").unwrap(), "<head>X</head>");
    assert_eq!(context.render_tag_link("t").unwrap(), "<a href=\"#t\">t</a>");
    assert_eq!(context.render_footer_inner_content_block(None, "d").unwrap(), "");
    assert_eq!(
        context.render_footer_inner_content_block(Some("s"), "d").unwrap(),
        "<a href=\"/posts/s.html\">d</a>"
    );
    assert_eq!(context.render_footer_nav_block(None, None).unwrap(), "<nav>|</nav>");
    assert_eq!(
        context.render_generic_page("T", "C").unwrap(),
        format!("GENERIC:<head>T</head><header/><main>C</main>{FOOT}")
    );
    assert_eq!(context.render_tag_for_tags_page(1).unwrap().lines().count(), 2);
    assert_eq!(
        context.generate_post_page("s", "c".to_string()),
        Document { path: "posts/s.html".to_string(), content: "c".to_string() }
    );
    assert_eq!(
        context.generic_globals_vec("T", "C").unwrap()[0],
        ("head".to_string(), "<head>T</head>".to_string())
    );
}

#[test]
fn footer_is_rendered_once_with_the_day() {
    let parser = build_parser().unwrap();
    let templates = Templates::new(&parser, &strings()).unwrap();
    let pre = PreRenderedTemplates::new(&templates, &today()).unwrap();
    assert_eq!(pre.footer_common, FOOT);
    let t = parse_template_str(&parser, TemplateId::FooterCommon, "{{year}}!").unwrap();
    assert_eq!(PreRenderedTemplates::render_footer_common(&t, &today()).unwrap(), "2024-05-06!");
    assert_eq!(TemplateId::FooterCommon.name(), "snippets/footer-common.html");
}

#[test]
fn without_tags_the_blocks_are_empty() {
    let data = ContextData::new(strings(), &Vec::new(), &today()).unwrap();
    let context = Context::new(&data);
    assert_eq!(context.render_tags_page_content().unwrap(), "");
    assert_eq!(context.generate_post_pages().unwrap(), Vec::new());
}

#[test]
fn a_failing_navigation_link_is_named() {
    let mut s = strings();
    s.snippets.footer_nav_content = "{{slug}}{{missing}}".to_string();
    let data = ContextData::new(s, &three(), &today()).unwrap();
    let context = Context::new(&data);
    assert_eq!(context.render_footer_nav_block(None, None).unwrap(), "<nav>|</nav>");
    match context.render_footer_nav_block(Some("a"), None) {
        Err(e) => assert_eq!(e.document, "footer nav content"),
        other => panic!("{:?}", other),
    }
    match context.generate_all() {
        Err(e) => assert_eq!(e.document, "footer nav content"),
        other => panic!("{:?}", other),
    }
    let one = ContextData::new(
        {
            let mut s = strings();
            s.snippets.footer_nav_content = "{{missing}}".to_string();
            s
        },
        &vec![file("only", "2023-01-01", "2023-01-01", "x")],
        &today(),
    )
    .unwrap();
    assert!(Context::new(&one).generate_all().is_ok());
}

#[test]
fn the_first_template_that_does_not_compile_is_named() {
    let parser = build_parser().unwrap();
    let mut s = strings();
    s.pages.generic = "{% if %}".to_string();
    s.pages.post = "{{".to_string();
    s.snippets.head = "{{".to_string();
    match PageTemplates::new(&parser, &s.pages) {
        Err(e) => assert_eq!(e.template, "pages/generic.html"),
        Ok(_) => panic!("compiled"),
    }
    match Templates::new(&parser, &s) {
        Err(e) => assert_eq!(e.template, "pages/generic.html"),
        Ok(_) => panic!("compiled"),
    }
    let mut s = strings();
    s.snippets.posts_content = "{% for %}".to_string();
    s.snippets.tag_posts = "{{".to_string();
    match SnippetTemplates::new(&parser, &s.snippets) {
        Err(e) => assert_eq!(e.template, "snippets/posts-content.html"),
        Ok(_) => panic!("compiled"),
    }
    assert!(PageTemplates::new(&parser, &s.pages).is_ok());
    assert!(parse_template_str(&parser, TemplateId::Head, "{{title}}").is_ok());
    assert!(parse_template_str(&parser, TemplateId::Head, "{{").is_err());
    assert!(Templates::new(&parser, &strings()).is_ok());
}

#[test]
fn a_template_error_comes_before_a_parse_error() {
    let mut s = strings();
    s.snippets.tag_posts = "{{".to_string();
    let files = vec![SourceFile { name: "bad.md".to_string(), text: "no header".to_string() }];
    match generate(s, &files, &today()) {
        Err(SiteError::Template(e)) => assert_eq!(e.template, "snippets/tag-posts.html"),
        other => panic!("{:?}", other),
    }
    match generate(strings(), &files, &today()) {
        Err(SiteError::Parse { file, .. }) => assert_eq!(file, "bad.md"),
        other => panic!("{:?}", other),
    }
}

#[test]
fn site_errors_say_what_failed() {
    let template = SiteError::Template(TemplateError {
        template: "pages/post.html".to_string(),
        detail: "why".to_string(),
    });
    assert_eq!(template.message(), "could not parse template pages/post.html: why");
    let render = SiteError::Render(RenderError {
        document: "post: a".to_string(),
        detail: "why".to_string(),
    });
    assert_eq!(render.message(), "could not render post: a: why");
}

#[test]
fn links_are_rendered_on_their_sides() {
    let data = ContextData::new(strings(), &three(), &today()).unwrap();
    let context = Context::new(&data);
    let old = NavLink { slug: Some("old".to_string()), description: "O".to_string() };
    let none = NavLink { slug: None, description: "N".to_string() };
    assert_eq!(context.render_nav_link(&none).unwrap(), "");
    assert_eq!(context.render_nav_link(&old).unwrap(), "<a href=\"/posts/old.html\">O</a>");
    assert_eq!(
        context.render_nav_links(&old, &none).unwrap(),
        "<nav><a href=\"/posts/old.html\">O</a>|</nav>"
    );
    assert_eq!(
        context.render_footer_nav_block(Some("p"), Some("n")).unwrap(),
        "<nav><a href=\"/posts/p.html\">&lt previous</a>|<a href=\"/posts/n.html\">next &gt</a></nav>"
    );
}
