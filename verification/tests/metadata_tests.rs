use speedy::date::Date;
use speedy::metadata::{Metadata, ParseError, NUM_HEADER_LNS, TAG_DELIMITER};

const HEADER: &str = "title: First Post\nslug: first-post\ncreated: 2023-01-01\nupdated: 2023-01-02\ntags: rust, blog\nsummary: The first one\n";

fn header_without(key: &str) -> String {
    let mut out = String::new();
    for line in HEADER.lines() {
        if !line.starts_with(key) {
            out.push_str(line);
            out.push('\n');
        }
    }
    out
}

fn header_with(key: &str, value: &str) -> String {
    let mut out = String::new();
    for line in HEADER.lines() {
        if line.starts_with(key) {
            out.push_str(&format!("{}: {}\n", key, value));
        } else {
            out.push_str(line);
            out.push('\n');
        }
    }
    out
}

#[test]
fn constants_of_the_header() {
    assert_eq!(NUM_HEADER_LNS, 6);
    assert_eq!(TAG_DELIMITER, ',');
}

#[test]
fn new_recovers_every_field() {
    let m = Metadata::new(HEADER).unwrap();
    assert_eq!(m.title, "First Post");
    assert_eq!(m.slug, "first-post");
    assert_eq!(m.created, Date::new(2023, 1, 1).unwrap());
    assert_eq!(m.updated, Date::new(2023, 1, 2).unwrap());
    assert_eq!(m.tags, vec!["rust".to_string(), "blog".to_string()]);
    assert_eq!(m.summary, "The first one");
}

#[test]
fn new_reads_lines_in_any_order() {
    let text = "summary: S\ntags: a\nupdated: 2021-02-03\ncreated: 2020-01-02\nslug: s\ntitle: T\nbody";
    let m = Metadata::new(text).unwrap();
    assert_eq!(m.title, "T");
    assert_eq!(m.slug, "s");
    assert_eq!(m.created, Date::new(2020, 1, 2).unwrap());
    assert_eq!(m.updated, Date::new(2021, 2, 3).unwrap());
    assert_eq!(m.tags, vec!["a".to_string()]);
    assert_eq!(m.summary, "S");
}

#[test]
fn new_does_not_read_past_the_header() {
    let text = format!("{}\nno colon here\ntitle: Other\n", HEADER);
    let m = Metadata::new(&text).unwrap();
    assert_eq!(m.title, "First Post");
}

#[test]
fn value_is_what_follows_the_first_colon() {
    let m = Metadata::new(&header_with("title", "  A: B : C  ")).unwrap();
    assert_eq!(m.title, "A: B : C");
    let m = Metadata::new(&header_with("summary", "")).unwrap();
    assert_eq!(m.summary, "");
}

#[test]
fn carriage_returns_end_lines_too() {
    let text = HEADER.replace('\n', "\r\n");
    let m = Metadata::new(&text).unwrap();
    assert_eq!(m.title, "First Post");
    assert_eq!(m.summary, "The first one");
}

#[test]
fn a_missing_field_is_named() {
    for key in ["title", "slug", "created", "updated", "tags", "summary"] {
        let text = format!("{}other: x\n", header_without(key));
        assert_eq!(Metadata::new(&text), Err(ParseError::MissingHeaderField(key.to_string())));
    }
}

#[test]
fn fewer_lines_than_the_header_has_miss_fields() {
    assert_eq!(Metadata::new(""), Err(ParseError::MissingHeaderField("title".to_string())));
    assert_eq!(
        Metadata::new("title: T\n"),
        Err(ParseError::MissingHeaderField("slug".to_string()))
    );
}

#[test]
fn a_field_past_the_sixth_line_is_missing() {
    let text = format!("extra: x\n{}", HEADER);
    assert_eq!(Metadata::new(&text), Err(ParseError::MissingHeaderField("summary".to_string())));
}

#[test]
fn a_malformed_date_is_named() {
    assert_eq!(
        Metadata::new(&header_with("created", "2023-1-1")),
        Err(ParseError::MalformedDate("2023-1-1".to_string()))
    );
    assert_eq!(
        Metadata::new(&header_with("updated", "2023-02-30")),
        Err(ParseError::MalformedDate("2023-02-30".to_string()))
    );
}

#[test]
fn a_line_without_colon_is_named() {
    let text = "title: T\nslug s\ncreated: 2023-01-01\n";
    assert_eq!(Metadata::new(text), Err(ParseError::MalformedHeaderLine("slug s".to_string())));
    let text = "title: T\n\nslug: s\n";
    assert_eq!(Metadata::new(text), Err(ParseError::MalformedHeaderLine("".to_string())));
}

#[test]
fn the_first_failure_decides() {
    let text = "slug s\ncreated: 2023-1-1\n";
    assert_eq!(Metadata::new(text), Err(ParseError::MalformedHeaderLine("slug s".to_string())));
    let text = "title: T\nslug: s\ncreated: nope\nupdated: nope too\ntags: \nsummary: S\n";
    assert_eq!(Metadata::new(text), Err(ParseError::MalformedDate("nope".to_string())));
}

#[test]
fn an_empty_tag_list_is_refused() {
    assert_eq!(
        Metadata::new(&header_with("tags", "")),
        Err(ParseError::MalformedTagList("".to_string()))
    );
    assert_eq!(Metadata::tags("   "), Err(ParseError::MalformedTagList("   ".to_string())));
}

#[test]
fn tags_are_split_and_trimmed() {
    assert_eq!(Metadata::tags("a"), Ok(vec!["a".to_string()]));
    assert_eq!(
        Metadata::tags(" rust ,blog,  Two Words "),
        Ok(vec!["rust".to_string(), "blog".to_string(), "Two Words".to_string()])
    );
    assert_eq!(
        Metadata::tags("a,,b,"),
        Ok(vec!["a".to_string(), "".to_string(), "b".to_string(), "".to_string()])
    );
    assert_eq!(Metadata::tags("Rust, rust"), Ok(vec!["Rust".to_string(), "rust".to_string()]));
}

#[test]
fn date_names_the_text_it_refuses() {
    assert_eq!(Metadata::date("2023-06-15"), Ok(Date::new(2023, 6, 15).unwrap()));
    assert_eq!(Metadata::date("June"), Err(ParseError::MalformedDate("June".to_string())));
}

#[test]
fn header_map_keeps_the_last_of_a_key() {
    let headers = Metadata::header_map("a: 1\nb: 2\na: 3\n").unwrap();
    assert_eq!(headers.get("a"), Some(&"3".to_string()));
    assert_eq!(headers.get("b"), Some(&"2".to_string()));
    assert_eq!(headers.get("c"), None);
    assert_eq!(Metadata::header_value(&headers, "a"), Ok("3".to_string()));
    assert_eq!(
        Metadata::header_value(&headers, "c"),
        Err(ParseError::MissingHeaderField("c".to_string()))
    );
}

#[test]
fn header_map_trims_keys_and_values() {
    let headers = Metadata::header_map("  key \t:\t value  \n").unwrap();
    assert_eq!(headers.get("key"), Some(&"value".to_string()));
}

#[test]
fn header_map_takes_six_lines() {
    let headers = Metadata::header_map("a: 1\nb: 2\nc: 3\nd: 4\ne: 5\nf: 6\ng: 7\n").unwrap();
    assert_eq!(headers.get("f"), Some(&"6".to_string()));
    assert_eq!(headers.get("g"), None);
}

#[test]
fn a_header_that_is_written_reads_back() {
    let title = "A: title, with  signs";
    let slug = "a-slug_1";
    let created = Date::new(1999, 12, 31).unwrap();
    let updated = Date::new(2024, 2, 29).unwrap();
    let tags = vec!["one".to_string(), "two words".to_string(), "Three".to_string()];
    let summary = "What it is about: everything";
    let header = format!(
        "title: {}\nslug: {}\ncreated: {}\nupdated: {}\ntags: {}\nsummary: {}\n",
        title,
        slug,
        created.to_text(),
        updated.to_text(),
        tags.join(", "),
        summary
    );
    let expected = Metadata {
        title: title.to_string(),
        slug: slug.to_string(),
        created,
        updated,
        tags,
        summary: summary.to_string(),
    };
    assert_eq!(Metadata::new(&header), Ok(expected.clone()));
    let with_body = format!("{}\nbody: not a header\n\nmore", header);
    assert_eq!(Metadata::new(&with_body), Ok(expected.clone()));
    let without_break = format!("{}body", header);
    assert_eq!(Metadata::new(&without_break), Ok(expected));
}
