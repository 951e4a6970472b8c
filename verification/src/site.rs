//! One run of the generator: from the files of the posts and the sources
//! of the templates to the documents of the site.

use vstd::prelude::*;
use crate::collection::{
    all_parse, is_collection_of, is_summary_failure_of, lemma_collection_is_determined,
    without_summaries, SiteError, SourceFile,
};
use crate::date::Date;
use crate::metadata::{metadata_of, MetadataView, ParseError, ParseErrorView};
use crate::post::PostView;
use crate::render::{
    document_paths, is_site_document, post_paths, site_paths, Context, ContextData, Document,
};
use crate::templates::{
    first_failing_template, prefixed, template_name, templates_compile, TemplateStrings,
};

verus! {

/// Whether the paths are those of the site of the files: those of the
/// chrome pages, and one for each post, the posts newest first.
pub open spec fn is_site_of(paths: Seq<Seq<char>>, files: Seq<SourceFile>) -> bool {
    exists|posts: Seq<PostView>| #[trigger]
        is_collection_of(posts, files) && paths == site_paths(posts)
}

/// Whether `name` is what a render error of a run on the files can name:
/// the summary of a post, where its file and all before it have a header
/// that can be read; or, where every header can be read, the common footer
/// or a document of the site of the posts, or a part of one.
pub open spec fn is_render_failure_of(name: Seq<char>, files: Seq<SourceFile>) -> bool {
    ||| is_summary_failure_of(name, files)
    ||| name == "footer common"@ && all_parse(files)
    ||| exists|posts: Seq<PostView>|
        is_collection_of(posts, files) && #[trigger] is_site_document(name, posts)
}

/// The paths of the documents of a run are determined by the files: two
/// runs on the same files that both succeed give documents at the same
/// paths, in the same order.
pub proof fn lemma_site_paths_are_determined(
    first: Seq<Seq<char>>,
    second: Seq<Seq<char>>,
    files: Seq<SourceFile>,
)
    requires
        is_site_of(first, files),
        is_site_of(second, files),
    ensures
        first == second,
{
    let a = choose|posts: Seq<PostView>| #[trigger]
        is_collection_of(posts, files) && first == site_paths(posts);
    let b = choose|posts: Seq<PostView>| #[trigger]
        is_collection_of(posts, files) && second == site_paths(posts);
    lemma_collection_is_determined(a, b, files);
    assert(post_paths(a) == post_paths(b)) by {
        assert(without_summaries(a).len() == without_summaries(b).len());
        assert forall|i: int| 0 <= i < a.len() implies a[i].metadata == b[i].metadata by {
            assert(without_summaries(a)[i] == without_summaries(b)[i]);
        }
    }
}

/// What a site error says, for a reader.
pub open spec fn site_error_text(error: SiteError) -> Seq<char> {
    match error {
        SiteError::Template(e) => "could not parse template "@ + e.template@ + ": "@ + e.detail@,
        SiteError::Parse { file, error } => file@ + ": "@ + parse_error_text(error@),
        SiteError::Render(e) => "could not render "@ + e.document@ + ": "@ + e.detail@,
    }
}

/// What the error says, for a reader.
pub open spec fn parse_error_text(error: ParseErrorView) -> Seq<char> {
    match error {
        ParseErrorView::MissingHeaderField(name) => "missing header field: "@ + name,
        ParseErrorView::MalformedDate(text) => "malformed date: "@ + text,
        ParseErrorView::MalformedHeaderLine(text) => "malformed header line: "@ + text,
        ParseErrorView::MalformedTagList(text) => "malformed tag list: "@ + text,
    }
}

impl ParseError {
    /// What the error says, for a reader: its kind, then the field or the
    /// text that it names.
    pub fn message(&self) -> (text: String)
        ensures
            text@ == parse_error_text(self@),
    {
        match self {
            ParseError::MissingHeaderField(name) => prefixed(
                "missing header field: ",
                name.as_str(),
            ),
            ParseError::MalformedDate(text) => prefixed("malformed date: ", text.as_str()),
            ParseError::MalformedHeaderLine(text) => prefixed(
                "malformed header line: ",
                text.as_str(),
            ),
            ParseError::MalformedTagList(text) => prefixed("malformed tag list: ", text.as_str()),
        }
    }
}

impl SiteError {
    /// What the error says, for a reader: the template, the file and the
    /// field, or the document that failed.
    pub fn message(&self) -> (text: String)
        ensures
            text@ == site_error_text(*self),
    {
        match self {
            SiteError::Template(e) => {
                let mut text = prefixed("could not parse template ", e.template.as_str());
                text.append(": ");
                text.append(e.detail.as_str());
                text
            },
            SiteError::Parse { file, error } => {
                let mut text = prefixed(file.as_str(), ": ");
                text.append(error.message().as_str());
                text
            },
            SiteError::Render(e) => {
                let mut text = prefixed("could not render ", e.document.as_str());
                text.append(": ");
                text.append(e.detail.as_str());
                text
            },
        }
    }
}

/// The documents of the site of the given posts, rendered through the
/// given templates with the day `today` in the footer. Nothing is written:
/// the caller writes each document to its path, and none where the run
/// fails. The first file whose header cannot be read decides a parse error.
pub fn generate(strings: TemplateStrings, files: &Vec<SourceFile>, today: &Date) -> (r: Result<
    Vec<Document>,
    SiteError,
>)
    ensures
        r matches Err(SiteError::Template(_)) <==> !templates_compile(strings),
        r matches Err(SiteError::Template(e)) ==> e.template@ == template_name(
            first_failing_template(strings),
        ),
        r matches Ok(documents) ==> is_site_of(document_paths(documents@), files@),
        r matches Err(SiteError::Parse { file, error }) ==> exists|i: int|
            0 <= i < files.len() && file == (#[trigger] files[i]).name && metadata_of(
                files[i].text@,
            ) == Err::<MetadataView, ParseErrorView>(error@) && forall|j: int|
                0 <= j < i ==> metadata_of((#[trigger] files[j]).text@) is Ok,
        r matches Err(SiteError::Render(e)) ==> is_render_failure_of(e.document@, files@),
{
    let context_data = match ContextData::new(strings, files, today) {
        Ok(data) => data,
        Err(e) => {
            return Err(e);
        },
    };
    let context = Context::new(&context_data);
    match context.generate_all() {
        Ok(documents) => {
            assert(is_collection_of(context.posts_view(), files@));
            Ok(documents)
        },
        Err(e) => {
            assert(is_site_document(e.document@, context.posts_view()));
            Err(SiteError::Render(e))
        },
    }
}

} // verus!
