//! The header of a post: six lines of the shape `key: value` that name its
//! title, slug, dates, tags and summary.

use vstd::prelude::*;
use crate::date::{date_of_text, Date, DateView};
use crate::text::{
    chars_between, chars_of, find_char, find_in_chars, has_no, is_space, is_trimmed, join,
    lemma_find_char_after, lemma_split_concat, lemma_split_scan_nonempty, lemma_split_whole,
    lemma_trimmed_after_space, lemma_trimmed_of_trimmed, lines_of, lines_of_chars, pair_views,
    same_text, split, split_chars, string_from, string_views, texts, trim_chars, trimmed,
    without_cr,
};
use crate::date::{is_digit, lemma_date_text_is_plain, lemma_date_text_round_trip};

verus! {

/// The number of lines at the start of a post that make up its header.
pub const NUM_HEADER_LNS: usize = 6;

/// The character between two tags.
pub const TAG_DELIMITER: char = ',';

/// Why a header could not be read.
#[derive(Clone, Debug, PartialEq, Eq)]
pub enum ParseError {
    /// No header line has this key.
    MissingHeaderField(String),
    /// This value is no date of the shape `YYYY-MM-DD`.
    MalformedDate(String),
    /// This header line holds no colon.
    MalformedHeaderLine(String),
    /// This list of tags is empty.
    MalformedTagList(String),
}

/// A `ParseError` over sequences of characters.
pub enum ParseErrorView {
    MissingHeaderField(Seq<char>),
    MalformedDate(Seq<char>),
    MalformedHeaderLine(Seq<char>),
    MalformedTagList(Seq<char>),
}

impl View for ParseError {
    type V = ParseErrorView;

    open spec fn view(&self) -> ParseErrorView {
        match self {
            ParseError::MissingHeaderField(name) => ParseErrorView::MissingHeaderField(name@),
            ParseError::MalformedDate(text) => ParseErrorView::MalformedDate(text@),
            ParseError::MalformedHeaderLine(text) => ParseErrorView::MalformedHeaderLine(text@),
            ParseError::MalformedTagList(text) => ParseErrorView::MalformedTagList(text@),
        }
    }
}

/// What a header says of a post.
#[derive(Clone, Debug, PartialEq, Eq)]
pub struct Metadata {
    pub title: String,
    pub slug: String,
    pub created: Date,
    pub updated: Date,
    pub tags: Vec<String>,
    pub summary: String,
}

/// A `Metadata` over sequences of characters and numbers.
pub struct MetadataView {
    pub title: Seq<char>,
    pub slug: Seq<char>,
    pub created: DateView,
    pub updated: DateView,
    pub tags: Seq<Seq<char>>,
    pub summary: Seq<char>,
}

impl View for Metadata {
    type V = MetadataView;

    open spec fn view(&self) -> MetadataView {
        MetadataView {
            title: self.title@,
            slug: self.slug@,
            created: self.created@,
            updated: self.updated@,
            tags: string_views(self.tags@),
            summary: self.summary@,
        }
    }
}

/// The key and the value of a header line: what stands before its first
/// colon and what stands after it, each trimmed.
pub open spec fn line_entry(line: Seq<char>) -> Option<(Seq<char>, Seq<char>)> {
    let at = find_char(line, ':', 0);
    if at < line.len() {
        Some((trimmed(line.take(at)), trimmed(line.skip(at + 1))))
    } else {
        None
    }
}

/// The lines of `text` that make up its header: the first six, or all of
/// them where there are fewer.
pub open spec fn header_lines(text: Seq<char>) -> Seq<Seq<char>> {
    let lines = lines_of(text);
    if lines.len() > NUM_HEADER_LNS {
        lines.take(NUM_HEADER_LNS as int)
    } else {
        lines
    }
}

/// The mapping from key to value that the lines spell, a later line
/// replacing an earlier one of the same key; or the first line without a
/// colon.
pub open spec fn header_map_of(lines: Seq<Seq<char>>) -> Result<
    Map<Seq<char>, Seq<char>>,
    ParseErrorView,
>
    decreases lines.len(),
{
    if lines.len() == 0 {
        Ok(Map::empty())
    } else {
        match header_map_of(lines.drop_last()) {
            Err(e) => Err(e),
            Ok(m) => match line_entry(lines.last()) {
                None => Err(ParseErrorView::MalformedHeaderLine(lines.last())),
                Some(entry) => Ok(m.insert(entry.0, entry.1)),
            },
        }
    }
}

/// The tags that `value` lists: its pieces between commas, each trimmed.
/// A value that is empty once trimmed lists none and is refused.
pub open spec fn tags_of(value: Seq<char>) -> Result<Seq<Seq<char>>, ParseErrorView> {
    if trimmed(value).len() == 0 {
        Err(ParseErrorView::MalformedTagList(value))
    } else {
        Ok(split(value, TAG_DELIMITER).map_values(|tag: Seq<char>| trimmed(tag)))
    }
}

/// The date that `value` spells, or the error that names `value`.
pub open spec fn date_field(value: Seq<char>) -> Result<DateView, ParseErrorView> {
    match date_of_text(value) {
        Some(date) => Ok(date),
        None => Err(ParseErrorView::MalformedDate(value)),
    }
}

/// The value of the key `name`, or the error that names the key.
pub open spec fn field_of(headers: Map<Seq<char>, Seq<char>>, name: Seq<char>) -> Result<
    Seq<char>,
    ParseErrorView,
> {
    if headers.contains_key(name) {
        Ok(headers[name])
    } else {
        Err(ParseErrorView::MissingHeaderField(name))
    }
}

/// The metadata that a mapping from key to value gives. The fields are
/// read in the order title, slug, created, updated, tags, summary, and the
/// first that is missing or malformed decides the error.
pub open spec fn metadata_from(headers: Map<Seq<char>, Seq<char>>) -> Result<
    MetadataView,
    ParseErrorView,
> {
    if field_of(headers, "title"@) is Err {
        Err(field_of(headers, "title"@)->Err_0)
    } else if field_of(headers, "slug"@) is Err {
        Err(field_of(headers, "slug"@)->Err_0)
    } else if field_of(headers, "created"@) is Err {
        Err(field_of(headers, "created"@)->Err_0)
    } else if date_field(headers["created"@]) is Err {
        Err(date_field(headers["created"@])->Err_0)
    } else if field_of(headers, "updated"@) is Err {
        Err(field_of(headers, "updated"@)->Err_0)
    } else if date_field(headers["updated"@]) is Err {
        Err(date_field(headers["updated"@])->Err_0)
    } else if field_of(headers, "tags"@) is Err {
        Err(field_of(headers, "tags"@)->Err_0)
    } else if tags_of(headers["tags"@]) is Err {
        Err(tags_of(headers["tags"@])->Err_0)
    } else if field_of(headers, "summary"@) is Err {
        Err(field_of(headers, "summary"@)->Err_0)
    } else {
        Ok(
            MetadataView {
                title: headers["title"@],
                slug: headers["slug"@],
                created: date_field(headers["created"@])->Ok_0,
                updated: date_field(headers["updated"@])->Ok_0,
                tags: tags_of(headers["tags"@])->Ok_0,
                summary: headers["summary"@],
            },
        )
    }
}

/// The metadata that the header of `text` spells.
pub open spec fn metadata_of(text: Seq<char>) -> Result<MetadataView, ParseErrorView> {
    match header_map_of(header_lines(text)) {
        Err(e) => Err(e),
        Ok(headers) => metadata_from(headers),
    }
}

/// The mapping that a list of pairs spells, a later pair replacing an
/// earlier one of the same key.
pub open spec fn pairs_map(pairs: Seq<(Seq<char>, Seq<char>)>) -> Map<Seq<char>, Seq<char>>
    decreases pairs.len(),
{
    if pairs.len() == 0 {
        Map::empty()
    } else {
        pairs_map(pairs.drop_last()).insert(pairs.last().0, pairs.last().1)
    }
}

/// The keys and values of a header.
#[derive(Clone, Debug, PartialEq, Eq)]
pub struct HeaderMap {
    entries: Vec<(String, String)>,
}

impl View for HeaderMap {
    type V = Map<Seq<char>, Seq<char>>;

    closed spec fn view(&self) -> Map<Seq<char>, Seq<char>> {
        pairs_map(pair_views(self.entries@))
    }
}

/// The last pair with the key `key` decides what the mapping holds for it.
proof fn lemma_pairs_map_found(pairs: Seq<(Seq<char>, Seq<char>)>, key: Seq<char>, at: int)
    requires
        0 <= at < pairs.len(),
        pairs[at].0 == key,
        forall|j: int| at < j < pairs.len() ==> pairs[j].0 != key,
    ensures
        pairs_map(pairs).contains_key(key),
        pairs_map(pairs)[key] == pairs[at].1,
    decreases pairs.len(),
{
    if at < pairs.len() - 1 {
        lemma_pairs_map_found(pairs.drop_last(), key, at);
    }
}

/// A key that no pair has is not in the mapping.
proof fn lemma_pairs_map_absent(pairs: Seq<(Seq<char>, Seq<char>)>, key: Seq<char>)
    requires
        forall|j: int| 0 <= j < pairs.len() ==> pairs[j].0 != key,
    ensures
        !pairs_map(pairs).contains_key(key),
    decreases pairs.len(),
{
    if pairs.len() > 0 {
        lemma_pairs_map_absent(pairs.drop_last(), key);
    }
}

impl HeaderMap {
    /// The value of `key`, where the header has that key.
    pub fn get(&self, key: &str) -> (r: Option<&String>)
        ensures
            r is Some <==> self@.contains_key(key@),
            r matches Some(value) ==> value@ == self@[key@],
    {
        let mut i: usize = self.entries.len();
        while i > 0
            invariant
                i <= self.entries.len(),
                forall|j: int| i <= j < self.entries.len() ==> self.entries@[j].0@ != key@,
            decreases i,
        {
            i -= 1;
            if same_text(self.entries[i].0.as_str(), key) {
                proof {
                    lemma_pairs_map_found(pair_views(self.entries@), key@, i as int);
                }
                return Some(&self.entries[i].1);
            }
        }
        proof {
            lemma_pairs_map_absent(pair_views(self.entries@), key@);
        }
        None
    }
}

impl Metadata {
    /// The metadata that the header of `header_text` spells. The text may
    /// be a whole post: what follows the header is not read.
    pub fn new(header_text: &str) -> (r: Result<Metadata, ParseError>)
        ensures
            r matches Ok(m) ==> metadata_of(header_text@) == Ok::<MetadataView, ParseErrorView>(m@),
            r matches Err(e) ==> metadata_of(header_text@) == Err::<MetadataView, ParseErrorView>(
                e@,
            ),
    {
        let headers = match Self::header_map(header_text) {
            Ok(headers) => headers,
            Err(e) => { return Err(e); },
        };
        let title = match Self::header_value(&headers, "title") {
            Ok(value) => value,
            Err(e) => { return Err(e); },
        };
        let slug = match Self::header_value(&headers, "slug") {
            Ok(value) => value,
            Err(e) => { return Err(e); },
        };
        let created = match Self::header_value(&headers, "created") {
            Ok(value) => match Self::date(value.as_str()) {
                Ok(date) => date,
                Err(e) => { return Err(e); },
            },
            Err(e) => { return Err(e); },
        };
        let updated = match Self::header_value(&headers, "updated") {
            Ok(value) => match Self::date(value.as_str()) {
                Ok(date) => date,
                Err(e) => { return Err(e); },
            },
            Err(e) => { return Err(e); },
        };
        let tags = match Self::header_value(&headers, "tags") {
            Ok(value) => match Self::tags(value.as_str()) {
                Ok(tags) => tags,
                Err(e) => { return Err(e); },
            },
            Err(e) => { return Err(e); },
        };
        let summary = match Self::header_value(&headers, "summary") {
            Ok(value) => value,
            Err(e) => { return Err(e); },
        };
        Ok(Metadata { title, slug, created, updated, tags, summary })
    }

    /// The keys and values of the header of `header_text`, or the first of
    /// its lines without a colon.
    pub fn header_map(header_text: &str) -> (r: Result<HeaderMap, ParseError>)
        ensures
            r matches Ok(headers) ==> header_map_of(header_lines(header_text@)) == Ok::<
                Map<Seq<char>, Seq<char>>,
                ParseErrorView,
            >(headers@),
            r matches Err(e) ==> header_map_of(header_lines(header_text@)) == Err::<
                Map<Seq<char>, Seq<char>>,
                ParseErrorView,
            >(e@),
    {
        let chars = chars_of(header_text);
        let lines = lines_of_chars(&chars);
        let count: usize = if lines.len() > NUM_HEADER_LNS {
            NUM_HEADER_LNS
        } else {
            lines.len()
        };
        let ghost wanted = header_lines(header_text@);
        assert(wanted == texts(lines@).take(count as int));
        let mut entries: Vec<(String, String)> = Vec::new();
        let mut i: usize = 0;
        while i < count
            invariant
                i <= count <= lines.len(),
                wanted == header_lines(header_text@),
                wanted == texts(lines@).take(count as int),
                header_map_of(wanted.take(i as int)) == Ok::<
                    Map<Seq<char>, Seq<char>>,
                    ParseErrorView,
                >(pairs_map(pair_views(entries@))),
            decreases count - i,
        {
            let line = &lines[i];
            let ghost next = wanted.take(i + 1);
            assert(next.drop_last() == wanted.take(i as int));
            assert(next.last() == line@);
            let at = find_in_chars(line, ':');
            if at >= line.len() {
                let text = string_from(line);
                proof {
                    assert(line_entry(line@) is None);
                    assert(header_map_of(next) is Err);
                    lemma_header_map_error_stays(wanted, i + 1);
                }
                return Err(ParseError::MalformedHeaderLine(text));
            }
            let before = chars_between(line, 0, at);
            let after = chars_between(line, at + 1, line.len());
            assert(before@ == line@.take(at as int));
            assert(after@ == line@.skip(at + 1));
            let key = string_from(&trim_chars(&before));
            let value = string_from(&trim_chars(&after));
            let ghost old_pairs = pair_views(entries@);
            entries.push((key, value));
            assert(pair_views(entries@).drop_last() == old_pairs);
            i += 1;
        }
        assert(wanted.take(count as int) == wanted);
        Ok(HeaderMap { entries })
    }

    /// The value of `key` in the header, or the error that names `key`.
    pub fn header_value(headers: &HeaderMap, key: &str) -> (r: Result<String, ParseError>)
        ensures
            r matches Ok(value) ==> field_of(headers@, key@) == Ok::<Seq<char>, ParseErrorView>(
                value@,
            ),
            r matches Err(e) ==> field_of(headers@, key@) == Err::<Seq<char>, ParseErrorView>(e@),
    {
        match headers.get(key) {
            Some(value) => Ok(value.clone()),
            None => Err(ParseError::MissingHeaderField(key.to_owned())),
        }
    }

    /// The tags that `tags` lists, or the error that names the list.
    pub fn tags(tags: &str) -> (r: Result<Vec<String>, ParseError>)
        ensures
            r matches Ok(list) ==> tags_of(tags@) == Ok::<Seq<Seq<char>>, ParseErrorView>(
                string_views(list@),
            ),
            r matches Err(e) ==> tags_of(tags@) == Err::<Seq<Seq<char>>, ParseErrorView>(e@),
    {
        let chars = chars_of(tags);
        if trim_chars(&chars).len() == 0 {
            return Err(ParseError::MalformedTagList(tags.to_owned()));
        }
        let pieces = split_chars(&chars, TAG_DELIMITER);
        let ghost wanted = split(tags@, TAG_DELIMITER).map_values(|tag: Seq<char>| trimmed(tag));
        let mut list: Vec<String> = Vec::new();
        let mut i: usize = 0;
        while i < pieces.len()
            invariant
                i <= pieces.len(),
                texts(pieces@) == split(tags@, TAG_DELIMITER),
                wanted == split(tags@, TAG_DELIMITER).map_values(|tag: Seq<char>| trimmed(tag)),
                string_views(list@) == wanted.take(i as int),
            decreases pieces.len() - i,
        {
            let tag = string_from(&trim_chars(&pieces[i]));
            let ghost before = string_views(list@);
            list.push(tag);
            assert(texts(pieces@)[i as int] == pieces@[i as int]@);
            assert(string_views(list@) == before.push(wanted[i as int]));
            i += 1;
        }
        assert(wanted.take(pieces.len() as int) == wanted);
        Ok(list)
    }

    /// The date that `date` spells, or the error that names the text.
    pub fn date(date: &str) -> (r: Result<Date, ParseError>)
        ensures
            r matches Ok(d) ==> date_field(date@) == Ok::<DateView, ParseErrorView>(d@),
            r matches Err(e) ==> date_field(date@) == Err::<DateView, ParseErrorView>(e@),
    {
        match Date::parse(date) {
            Some(d) => Ok(d),
            None => Err(ParseError::MalformedDate(date.to_owned())),
        }
    }
}

/// A header line: the key, a colon, a space and the value.
pub open spec fn header_line(key: Seq<char>, value: Seq<char>) -> Seq<char> {
    key + seq![':', ' '] + value
}

/// A list of tags as a header spells it: a comma and a space between each
/// two.
pub open spec fn tags_text(tags: Seq<Seq<char>>) -> Seq<char> {
    join(tags, seq![',', ' '])
}

/// The lines, each ended by a line feed.
pub open spec fn ended_lines(lines: Seq<Seq<char>>) -> Seq<char>
    decreases lines.len(),
{
    if lines.len() == 0 {
        Seq::empty()
    } else {
        ended_lines(lines.drop_last()) + lines.last() + seq!['\n']
    }
}

/// The lines of the header that spells the metadata: one for each field.
pub open spec fn header_lines_of(m: MetadataView) -> Seq<Seq<char>> {
    seq![
        header_line("title"@, m.title),
        header_line("slug"@, m.slug),
        header_line("created"@, m.created.text()),
        header_line("updated"@, m.updated.text()),
        header_line("tags"@, tags_text(m.tags)),
        header_line("summary"@, m.summary),
    ]
}

/// The header that spells the metadata: one line for each field, each
/// ended by a line feed.
pub open spec fn header_text(m: MetadataView) -> Seq<char> {
    ended_lines(header_lines_of(m))
}

/// Whether a text can be the value of a header line and be read back: it
/// holds no line feed and neither starts nor ends with white space.
pub open spec fn is_field_text(value: Seq<char>) -> bool {
    has_no(value, '\n') && is_trimmed(value)
}

/// Whether a text can be a tag in a header and be read back: it is not
/// empty, holds no comma and no line feed, and neither starts nor ends with
/// white space.
pub open spec fn is_tag_text(tag: Seq<char>) -> bool {
    tag.len() > 0 && has_no(tag, ',') && has_no(tag, '\n') && is_trimmed(tag)
}

/// Whether a header can spell the metadata and be read back.
pub open spec fn is_well_formed(m: MetadataView) -> bool {
    &&& is_field_text(m.title)
    &&& is_field_text(m.slug)
    &&& is_field_text(m.summary)
    &&& m.created.valid()
    &&& m.updated.valid()
    &&& m.tags.len() > 0
    &&& forall|i: int| 0 <= i < m.tags.len() ==> is_tag_text(#[trigger] m.tags[i])
}

/// A header line of a key without colon and a trimmed value gives back
/// the key and the value.
pub proof fn lemma_line_entry(key: Seq<char>, value: Seq<char>)
    requires
        has_no(key, ':'),
        is_trimmed(key),
        is_trimmed(value),
    ensures
        line_entry(header_line(key, value)) == Some((key, value)),
{
    let line = header_line(key, value);
    assert(line == key + seq![':'] + (seq![' '] + value));
    lemma_find_char_after(key, ':', seq![' '] + value, 0);
    assert(line.take(key.len() as int) == key);
    assert(line.skip(key.len() as int + 1) == seq![' '] + value);
    lemma_trimmed_of_trimmed(key);
    lemma_trimmed_after_space(value);
}

/// The tags of a list, as the pieces between the commas of its text: a
/// space before each but the first.
pub open spec fn spaced_tags(tags: Seq<Seq<char>>) -> Seq<Seq<char>> {
    Seq::new(
        tags.len(),
        |i: int|
            if i == 0 {
                tags[0]
            } else {
                seq![' '] + tags[i]
            },
    )
}

/// The text of a list of tags splits at its commas into the tags, with a
/// space before each but the first; it holds no line feed and is trimmed.
pub proof fn lemma_tags_text_splits(tags: Seq<Seq<char>>)
    requires
        tags.len() > 0,
        forall|i: int| 0 <= i < tags.len() ==> is_tag_text(#[trigger] tags[i]),
    ensures
        split(tags_text(tags), ',') == spaced_tags(tags),
        has_no(tags_text(tags), '\n'),
        tags_text(tags).len() > 0,
        tags_text(tags)[0] == tags[0][0],
        tags_text(tags).last() == tags.last().last(),
    decreases tags.len(),
{
    let sep = seq![',', ' '];
    if tags.len() == 1 {
        assert(is_tag_text(tags[0]));
        lemma_split_whole(tags[0], ',');
        assert(spaced_tags(tags) == seq![tags[0]]);
    } else {
        let rest = tags.drop_last();
        let last = tags.last();
        assert(is_tag_text(tags[tags.len() - 1]));
        assert forall|i: int| 0 <= i < rest.len() implies is_tag_text(#[trigger] rest[i]) by {
            assert(is_tag_text(tags[i]));
        }
        lemma_tags_text_splits(rest);
        let a = tags_text(rest);
        let b = seq![' '] + last;
        assert(tags_text(tags) == a + seq![','] + b);
        lemma_split_concat(a, b, ',');
        assert(has_no(b, ',')) by {
            assert forall|i: int| 0 <= i < b.len() implies b[i] != ',' by {
                if i > 0 {
                    assert(b[i] == last[i - 1]);
                }
            }
        }
        lemma_split_whole(b, ',');
        assert(split(tags_text(tags), ',') == spaced_tags(rest) + seq![b]);
        assert(spaced_tags(rest) + seq![b] == spaced_tags(tags));
        let t = tags_text(tags);
        assert forall|i: int| 0 <= i < t.len() implies t[i] != '\n' by {
            if i < a.len() {
                assert(t[i] == a[i]);
            } else if i == a.len() {
            } else if i == a.len() + 1 {
                assert(t[i] == b[0]);
            } else {
                assert(t[i] == last[i - a.len() - 2]);
            }
        }
        assert(t[0] == a[0]);
        assert(rest[0] == tags[0]);
        assert(t.last() == last.last());
    }
}

/// The text of a list of tags gives back the tags.
pub proof fn lemma_tags_round_trip(tags: Seq<Seq<char>>)
    requires
        tags.len() > 0,
        forall|i: int| 0 <= i < tags.len() ==> is_tag_text(#[trigger] tags[i]),
    ensures
        tags_of(tags_text(tags)) == Ok::<Seq<Seq<char>>, ParseErrorView>(tags),
        is_field_text(tags_text(tags)),
{
    lemma_tags_text_splits(tags);
    let text = tags_text(tags);
    assert(is_tag_text(tags[0]));
    assert(is_tag_text(tags[tags.len() - 1]));
    assert(is_trimmed(text));
    lemma_trimmed_of_trimmed(text);
    let pieces = split(text, TAG_DELIMITER);
    let read = pieces.map_values(|tag: Seq<char>| trimmed(tag));
    assert(read == tags) by {
        assert forall|i: int| 0 <= i < tags.len() implies read[i] == tags[i] by {
            assert(is_tag_text(tags[i]));
            if i == 0 {
                lemma_trimmed_of_trimmed(tags[0]);
            } else {
                lemma_trimmed_after_space(tags[i]);
            }
        }
    }
}

/// Whether `key` is one of the six keys of a header.
pub open spec fn is_header_key(key: Seq<char>) -> bool {
    ||| key == "title"@
    ||| key == "slug"@
    ||| key == "created"@
    ||| key == "updated"@
    ||| key == "tags"@
    ||| key == "summary"@
}

/// The keys of a header hold no colon and no line feed and are trimmed,
/// and no two of them are the same.
pub proof fn lemma_header_keys()
    ensures
        forall|key: Seq<char>| #[trigger]
            is_header_key(key) ==> has_no(key, ':') && has_no(key, '\n') && is_trimmed(key)
                && key.len() > 0,
        "title"@ != "slug"@,
        "title"@ != "created"@,
        "title"@ != "updated"@,
        "title"@ != "tags"@,
        "title"@ != "summary"@,
        "slug"@ != "created"@,
        "slug"@ != "updated"@,
        "slug"@ != "tags"@,
        "slug"@ != "summary"@,
        "created"@ != "updated"@,
        "created"@ != "tags"@,
        "created"@ != "summary"@,
        "updated"@ != "tags"@,
        "updated"@ != "summary"@,
        "tags"@ != "summary"@,
{
    reveal_strlit("title");
    reveal_strlit("slug");
    reveal_strlit("created");
    reveal_strlit("updated");
    reveal_strlit("tags");
    reveal_strlit("summary");
    assert("title"@ == seq!['t', 'i', 't', 'l', 'e']);
    assert("slug"@ == seq!['s', 'l', 'u', 'g']);
    assert("created"@ == seq!['c', 'r', 'e', 'a', 't', 'e', 'd']);
    assert("updated"@ == seq!['u', 'p', 'd', 'a', 't', 'e', 'd']);
    assert("tags"@ == seq!['t', 'a', 'g', 's']);
    assert("summary"@ == seq!['s', 'u', 'm', 'm', 'a', 'r', 'y']);
    assert("slug"@[0] != "tags"@[0]);
    assert("created"@[0] != "updated"@[0]);
    assert("created"@[0] != "summary"@[0]);
    assert("updated"@[0] != "summary"@[0]);
}

/// A header line of a key and a value without line feed holds no line
/// feed, and no carriage return at its end.
pub proof fn lemma_header_line_is_plain(key: Seq<char>, value: Seq<char>)
    requires
        has_no(key, '\n'),
        is_field_text(value),
    ensures
        has_no(header_line(key, value), '\n'),
        without_cr(header_line(key, value)) == header_line(key, value),
{
    let line = header_line(key, value);
    assert forall|i: int| 0 <= i < line.len() implies line[i] != '\n' by {
        if i < key.len() {
            assert(line[i] == key[i]);
        } else if i >= key.len() + 2 {
            assert(line[i] == value[i - key.len() - 2]);
        }
    }
    if value.len() > 0 {
        assert(line.last() == value.last());
        assert(is_space('\r'));
    } else {
        assert(line.last() == ' ');
    }
}

/// Lines without line feed, each ended by a line feed, and a text after
/// them split at the line feeds into the lines and the pieces of the text.
pub proof fn lemma_split_ended_lines(lines: Seq<Seq<char>>, rest: Seq<char>)
    requires
        forall|i: int| 0 <= i < lines.len() ==> has_no(#[trigger] lines[i], '\n'),
    ensures
        split(ended_lines(lines) + rest, '\n') == lines + split(rest, '\n'),
    decreases lines.len(),
{
    if lines.len() == 0 {
        assert(ended_lines(lines) + rest == rest);
        assert(lines + split(rest, '\n') == split(rest, '\n'));
    } else {
        let init = lines.drop_last();
        let last = lines.last();
        let more = last + seq!['\n'] + rest;
        assert(ended_lines(lines) + rest == ended_lines(init) + more);
        assert forall|i: int| 0 <= i < init.len() implies has_no(#[trigger] init[i], '\n') by {
            assert(has_no(lines[i], '\n'));
        }
        lemma_split_ended_lines(init, more);
        lemma_split_concat(last, rest, '\n');
        assert(has_no(lines[lines.len() - 1], '\n'));
        lemma_split_whole(last, '\n');
        assert(init + (seq![last] + split(rest, '\n')) == lines + split(rest, '\n'));
    }
}

/// Six lines without line feed or carriage return at their end, each
/// ended by a line feed, are the header of what they start.
pub proof fn lemma_header_lines(lines: Seq<Seq<char>>, body: Seq<char>)
    requires
        lines.len() == NUM_HEADER_LNS,
        forall|i: int| 0 <= i < lines.len() ==> has_no(#[trigger] lines[i], '\n'),
        forall|i: int| 0 <= i < lines.len() ==> without_cr(#[trigger] lines[i]) == lines[i],
    ensures
        header_lines(ended_lines(lines) + body) == lines,
{
    let text = ended_lines(lines) + body;
    lemma_split_ended_lines(lines, body);
    lemma_split_scan_nonempty(body, '\n', 0, 0);
    let pieces = split(text, '\n');
    assert(pieces == lines + split(body, '\n'));
    let ended = pieces.drop_last().map_values(|p: Seq<char>| without_cr(p));
    let all = lines_of(text);
    assert(all.len() >= 6);
    assert forall|i: int| 0 <= i < 6 implies all[i] == lines[i] by {
        assert(pieces[i] == lines[i]);
        assert(ended[i] == without_cr(pieces.drop_last()[i]));
        assert(without_cr(lines[i]) == lines[i]);
    }
    assert(header_lines(text) == lines);
}

/// The fields of the metadata as a header spells them, key by key.
pub open spec fn header_fields_of(m: MetadataView) -> Map<Seq<char>, Seq<char>> {
    Map::<Seq<char>, Seq<char>>::empty().insert("title"@, m.title).insert("slug"@, m.slug).insert(
        "created"@,
        m.created.text(),
    ).insert("updated"@, m.updated.text()).insert("tags"@, tags_text(m.tags)).insert(
        "summary"@,
        m.summary,
    )
}

/// Whether each of the lines is the header line of one of the fields.
pub open spec fn lines_spell(lines: Seq<Seq<char>>, fields: Map<Seq<char>, Seq<char>>) -> bool {
    forall|j: int|
        0 <= j < lines.len() ==> exists|key: Seq<char>|
            fields.contains_key(key) && #[trigger] lines[j] == #[trigger] header_line(
                key,
                fields[key],
            )
}

/// Whether the field `key` has its header line among the lines.
pub open spec fn has_line(
    lines: Seq<Seq<char>>,
    fields: Map<Seq<char>, Seq<char>>,
    key: Seq<char>,
) -> bool {
    lines.contains(header_line(key, fields[key]))
}

/// Lines that are header lines of fields, in any order, spell a mapping
/// that holds each field that has a line, with its value.
pub proof fn lemma_header_map_of_fields(
    lines: Seq<Seq<char>>,
    fields: Map<Seq<char>, Seq<char>>,
)
    requires
        lines_spell(lines, fields),
        forall|key: Seq<char>| #[trigger]
            fields.contains_key(key) ==> has_no(key, ':') && is_trimmed(key) && is_trimmed(
                fields[key],
            ),
    ensures
        header_map_of(lines) is Ok,
        forall|key: Seq<char>|
            fields.contains_key(key) && #[trigger] has_line(lines, fields, key) ==> header_map_of(
                lines,
            )->Ok_0.contains_key(key) && header_map_of(lines)->Ok_0[key] == fields[key],
    decreases lines.len(),
{
    if lines.len() > 0 {
        let rest = lines.drop_last();
        let last = lines.last();
        assert forall|j: int| 0 <= j < rest.len() implies exists|key: Seq<char>|
            fields.contains_key(key) && #[trigger] rest[j] == #[trigger] header_line(
                key,
                fields[key],
            ) by {
            assert(rest[j] == lines[j]);
            let key = choose|key: Seq<char>|
                fields.contains_key(key) && lines[j] == #[trigger] header_line(key, fields[key]);
            assert(rest[j] == header_line(key, fields[key]));
        }
        lemma_header_map_of_fields(rest, fields);
        assert(lines[lines.len() - 1] == last);
        let last_key = choose|key: Seq<char>|
            fields.contains_key(key) && lines[lines.len() - 1] == #[trigger] header_line(
                key,
                fields[key],
            );
        lemma_line_entry(last_key, fields[last_key]);
        let before = header_map_of(rest)->Ok_0;
        assert(header_map_of(lines) == Ok::<Map<Seq<char>, Seq<char>>, ParseErrorView>(
            before.insert(last_key, fields[last_key]),
        ));
        assert forall|key: Seq<char>|
            fields.contains_key(key) && #[trigger] has_line(
                lines,
                fields,
                key,
            ) implies header_map_of(lines)->Ok_0.contains_key(key) && header_map_of(
            lines,
        )->Ok_0[key] == fields[key] by {
            if key != last_key {
                let line = header_line(key, fields[key]);
                let j = choose|j: int| 0 <= j < lines.len() && lines[j] == line;
                if j == lines.len() - 1 {
                    lemma_line_entry(key, fields[key]);
                    assert(false);
                }
                assert(rest[j] == line);
                assert(has_line(rest, fields, key));
            }
        }
    }
}

/// The fields of well-formed metadata: the keys are the six keys of a
/// header, each value is a text that a header line can carry, and the
/// dates and the tags read back from their values.
pub proof fn lemma_header_fields(m: MetadataView)
    requires
        is_well_formed(m),
    ensures
        forall|key: Seq<char>| #[trigger]
            header_fields_of(m).contains_key(key) ==> is_header_key(key) && has_no(key, ':')
                && has_no(key, '\n') && is_trimmed(key) && is_field_text(
                header_fields_of(m)[key],
            ),
        header_fields_of(m).contains_key("title"@) && header_fields_of(m)["title"@] == m.title,
        header_fields_of(m).contains_key("slug"@) && header_fields_of(m)["slug"@] == m.slug,
        header_fields_of(m).contains_key("created"@) && header_fields_of(m)["created"@]
            == m.created.text(),
        header_fields_of(m).contains_key("updated"@) && header_fields_of(m)["updated"@]
            == m.updated.text(),
        header_fields_of(m).contains_key("tags"@) && header_fields_of(m)["tags"@] == tags_text(
            m.tags,
        ),
        header_fields_of(m).contains_key("summary"@) && header_fields_of(m)["summary"@]
            == m.summary,
        date_of_text(m.created.text()) == Some(m.created),
        date_of_text(m.updated.text()) == Some(m.updated),
        tags_of(tags_text(m.tags)) == Ok::<Seq<Seq<char>>, ParseErrorView>(m.tags),
{
    lemma_header_keys();
    lemma_tags_round_trip(m.tags);
    lemma_date_text_is_plain(m.created);
    lemma_date_text_is_plain(m.updated);
    lemma_date_text_round_trip(m.created);
    lemma_date_text_round_trip(m.updated);
    let created = m.created.text();
    let updated = m.updated.text();
    assert(is_field_text(created)) by {
        assert(is_digit(created[0]) || created[0] == '-');
        assert(is_digit(created[9]) || created[9] == '-');
        assert forall|i: int| 0 <= i < created.len() implies created[i] != '\n' by {
            assert(is_digit(created[i]) || created[i] == '-');
        }
    }
    assert(is_field_text(updated)) by {
        assert(is_digit(updated[0]) || updated[0] == '-');
        assert(is_digit(updated[9]) || updated[9] == '-');
        assert forall|i: int| 0 <= i < updated.len() implies updated[i] != '\n' by {
            assert(is_digit(updated[i]) || updated[i] == '-');
        }
    }
    assert(is_header_key("title"@));
    assert(is_header_key("slug"@));
    assert(is_header_key("created"@));
    assert(is_header_key("updated"@));
    assert(is_header_key("tags"@));
    assert(is_header_key("summary"@));
}

/// Lines that are all among the six lines of the header of well-formed
/// metadata are header lines of its fields, and hold no line feed and no
/// carriage return at their end.
pub proof fn lemma_lines_of_fields(m: MetadataView, lines: Seq<Seq<char>>)
    requires
        is_well_formed(m),
        forall|j: int| 0 <= j < lines.len() ==> header_lines_of(m).contains(#[trigger] lines[j]),
    ensures
        lines_spell(lines, header_fields_of(m)),
        forall|j: int| 0 <= j < lines.len() ==> has_no(#[trigger] lines[j], '\n'),
        forall|j: int| 0 <= j < lines.len() ==> without_cr(#[trigger] lines[j]) == lines[j],
{
    lemma_header_fields(m);
    let fields = header_fields_of(m);
    let canon = header_lines_of(m);
    assert forall|j: int| 0 <= j < lines.len() implies has_no(#[trigger] lines[j], '\n')
        && without_cr(lines[j]) == lines[j] && exists|key: Seq<char>|
        fields.contains_key(key) && lines[j] == #[trigger] header_line(key, fields[key]) by {
        assert(canon.contains(lines[j]));
        let i = choose|i: int| 0 <= i < canon.len() && canon[i] == lines[j];
        let key = if i == 0 {
            "title"@
        } else if i == 1 {
            "slug"@
        } else if i == 2 {
            "created"@
        } else if i == 3 {
            "updated"@
        } else if i == 4 {
            "tags"@
        } else {
            "summary"@
        };
        assert(fields.contains_key(key));
        assert(canon[i] == header_line(key, fields[key]));
        lemma_header_line_is_plain(key, fields[key]);
    }
}

/// A header that spells well-formed metadata with its six lines in any
/// order gives back the metadata, whatever follows the header.
pub proof fn lemma_header_round_trip_any_order(
    m: MetadataView,
    lines: Seq<Seq<char>>,
    body: Seq<char>,
)
    requires
        is_well_formed(m),
        lines.len() == NUM_HEADER_LNS,
        forall|j: int| 0 <= j < lines.len() ==> header_lines_of(m).contains(#[trigger] lines[j]),
        forall|i: int| 0 <= i < 6 ==> lines.contains(#[trigger] header_lines_of(m)[i]),
    ensures
        metadata_of(ended_lines(lines) + body) == Ok::<MetadataView, ParseErrorView>(m),
{
    let fields = header_fields_of(m);
    let canon = header_lines_of(m);
    lemma_header_fields(m);
    lemma_lines_of_fields(m, lines);
    lemma_header_lines(lines, body);
    lemma_header_map_of_fields(lines, fields);
    let headers = header_map_of(lines)->Ok_0;
    assert(headers.contains_key("title"@) && headers["title"@] == m.title) by {
        assert(lines.contains(canon[0]));
        assert(has_line(lines, fields, "title"@));
    }
    assert(headers.contains_key("slug"@) && headers["slug"@] == m.slug) by {
        assert(lines.contains(canon[1]));
        assert(has_line(lines, fields, "slug"@));
    }
    assert(headers.contains_key("created"@) && headers["created"@] == m.created.text()) by {
        assert(lines.contains(canon[2]));
        assert(has_line(lines, fields, "created"@));
    }
    assert(headers.contains_key("updated"@) && headers["updated"@] == m.updated.text()) by {
        assert(lines.contains(canon[3]));
        assert(has_line(lines, fields, "updated"@));
    }
    assert(headers.contains_key("tags"@) && headers["tags"@] == tags_text(m.tags)) by {
        assert(lines.contains(canon[4]));
        assert(has_line(lines, fields, "tags"@));
    }
    assert(headers.contains_key("summary"@) && headers["summary"@] == m.summary) by {
        assert(lines.contains(canon[5]));
        assert(has_line(lines, fields, "summary"@));
    }
    assert(metadata_from(headers) == Ok::<MetadataView, ParseErrorView>(m));
}

/// A header that spells well-formed metadata gives back the metadata,
/// every field as it was and the tags in their order, whatever follows the
/// header.
pub proof fn lemma_header_round_trip(m: MetadataView, body: Seq<char>)
    requires
        is_well_formed(m),
    ensures
        metadata_of(header_text(m) + body) == Ok::<MetadataView, ParseErrorView>(m),
{
    let lines = header_lines_of(m);
    assert forall|j: int| 0 <= j < lines.len() implies lines.contains(#[trigger] lines[j]) by {}
    lemma_header_round_trip_any_order(m, lines, body);
}

/// A header with a title, a slug and two dates but without the key `tags`
/// is refused, and the error names `tags`.
pub proof fn lemma_missing_tags_is_named(headers: Map<Seq<char>, Seq<char>>)
    requires
        headers.contains_key("title"@),
        headers.contains_key("slug"@),
        headers.contains_key("created"@),
        date_of_text(headers["created"@]) is Some,
        headers.contains_key("updated"@),
        date_of_text(headers["updated"@]) is Some,
        !headers.contains_key("tags"@),
    ensures
        metadata_from(headers) == Err::<MetadataView, ParseErrorView>(
            ParseErrorView::MissingHeaderField("tags"@),
        ),
{
}

/// Once a line without a colon is met, the lines after it change nothing.
proof fn lemma_header_map_error_stays(lines: Seq<Seq<char>>, upto: int)
    requires
        0 <= upto <= lines.len(),
        header_map_of(lines.take(upto)) is Err,
    ensures
        header_map_of(lines) == header_map_of(lines.take(upto)),
    decreases lines.len() - upto,
{
    if upto < lines.len() {
        assert(lines.take(upto + 1).drop_last() == lines.take(upto));
        lemma_header_map_error_stays(lines, upto + 1);
    } else {
        assert(lines.take(upto) == lines);
    }
}

} // verus!
