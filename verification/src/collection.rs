//! The posts of a site: which files are posts, how they are loaded, and
//! the order they are kept in.

use vstd::prelude::*;
use crate::markdown::{get_md_opts, markdown_html, md_to_html};
use crate::metadata::{metadata_of, Metadata, MetadataView, ParseError, ParseErrorView};
use crate::post::{
    body_of, post_body, post_url, post_views, summary_document, Post, PostView,
};
use crate::templates::{RenderError, TemplateError};
use crate::text::{chars_of, string_views};

verus! {

/// An entry of the directory of posts.
#[derive(Clone, Debug, PartialEq, Eq)]
pub struct DirEntry {
    /// The name of the entry, without its directory.
    pub name: String,
    /// Whether the entry is a regular file.
    pub is_file: bool,
}

/// A file of the directory of posts, as it was read.
#[derive(Clone, Debug, PartialEq, Eq)]
pub struct SourceFile {
    pub name: String,
    pub text: String,
}

/// Why a site could not be generated.
#[derive(Clone, Debug, PartialEq, Eq)]
pub enum SiteError {
    /// A template did not compile.
    Template(TemplateError),
    /// The header of the file `file` could not be read.
    Parse { file: String, error: ParseError },
    /// A document could not be rendered.
    Render(RenderError),
}

/// Whether a directory entry is a post: a regular file whose name is not
/// empty and does not start with a dot.
pub open spec fn is_post_entry(name: Seq<char>, is_file: bool) -> bool {
    is_file && name.len() > 0 && name[0] != '.'
}

/// The names of the entries that are posts, in the order of the entries.
pub open spec fn post_entry_names(entries: Seq<DirEntry>) -> Seq<Seq<char>>
    decreases entries.len(),
{
    if entries.len() == 0 {
        Seq::empty()
    } else {
        let rest = post_entry_names(entries.drop_last());
        if is_post_entry(entries.last().name@, entries.last().is_file) {
            rest.push(entries.last().name@)
        } else {
            rest
        }
    }
}

/// The number that orders a post: that of the day it was created on.
pub open spec fn created_ordinal(post: PostView) -> int {
    post.metadata.created.ordinal()
}

/// Whether no post stands before one that was created later.
pub open spec fn newest_first(posts: Seq<PostView>) -> bool {
    forall|i: int, j: int|
        0 <= i < j < posts.len() ==> created_ordinal(#[trigger] posts[i]) >= created_ordinal(
            #[trigger] posts[j],
        )
}

/// The posts that were created on the day of the ordinal `day`, in the
/// order in which `posts` holds them.
pub open spec fn created_on(posts: Seq<PostView>, day: int) -> Seq<PostView>
    decreases posts.len(),
{
    if posts.len() == 0 {
        Seq::empty()
    } else {
        let rest = created_on(posts.drop_last(), day);
        if created_ordinal(posts.last()) == day {
            rest.push(posts.last())
        } else {
            rest
        }
    }
}

/// Whether `sorted` holds the posts of `posts` newest first, those of one
/// day in the order in which `posts` holds them.
pub open spec fn is_stable_sort_of(sorted: Seq<PostView>, posts: Seq<PostView>) -> bool {
    &&& sorted.len() == posts.len()
    &&& newest_first(sorted)
    &&& forall|day: int| #[trigger] created_on(sorted, day) == created_on(posts, day)
}

/// Whether `post` is what the file with the text `text` gives, but for its
/// summary: its metadata is that of the header, its content the HTML of the
/// body, its address that of its slug.
pub open spec fn is_post_of(post: PostView, text: Seq<char>) -> bool {
    &&& metadata_of(text) == Ok::<MetadataView, ParseErrorView>(post.metadata)
    &&& post.content == markdown_html(body_of(text), true, true, true)
    &&& post.url == post_url(post.metadata.slug)
}

/// Whether `loaded` holds, file by file, what the files give.
pub open spec fn are_posts_of(loaded: Seq<PostView>, files: Seq<SourceFile>) -> bool {
    &&& loaded.len() == files.len()
    &&& forall|i: int| 0 <= i < files.len() ==> is_post_of(#[trigger] loaded[i], files[i].text@)
}

/// Whether `posts` holds what the files give, newest first, those of one
/// day in the order of their files.
pub open spec fn is_collection_of(posts: Seq<PostView>, files: Seq<SourceFile>) -> bool {
    exists|loaded: Seq<PostView>|
        are_posts_of(loaded, files) && #[trigger] is_stable_sort_of(posts, loaded)
}

/// Whether `name` names the summary of the post of a file, where that file
/// and all files before it have a header that can be read: what a render
/// error of loading the posts names.
pub open spec fn is_summary_failure_of(name: Seq<char>, files: Seq<SourceFile>) -> bool {
    exists|i: int|
        0 <= i < files.len() && name == summary_document(
            metadata_of((#[trigger] files[i]).text@)->Ok_0.slug,
        ) && forall|j: int| 0 <= j <= i ==> metadata_of((#[trigger] files[j]).text@) is Ok
}

/// Whether the header of every file can be read.
pub open spec fn all_parse(files: Seq<SourceFile>) -> bool {
    forall|i: int| 0 <= i < files.len() ==> metadata_of((#[trigger] files[i]).text@) is Ok
}

/// Whether a directory entry is a post.
pub fn is_post_file(name: &str, is_file: bool) -> (b: bool)
    ensures
        b == is_post_entry(name@, is_file),
{
    if !is_file {
        return false;
    }
    let chars = chars_of(name);
    chars.len() > 0 && chars[0] != '.'
}

/// The names of the entries of a directory that are posts, in the order of
/// the entries.
pub fn files_from_dir(entries: &Vec<DirEntry>) -> (names: Vec<String>)
    ensures
        string_views(names@) == post_entry_names(entries@),
{
    let mut names: Vec<String> = Vec::new();
    let mut i: usize = 0;
    while i < entries.len()
        invariant
            i <= entries.len(),
            string_views(names@) == post_entry_names(entries@.take(i as int)),
        decreases entries.len() - i,
    {
        assert(entries@.take(i + 1).drop_last() == entries@.take(i as int));
        if is_post_file(entries[i].name.as_str(), entries[i].is_file) {
            let ghost before = string_views(names@);
            names.push(entries[i].name.clone());
            assert(string_views(names@) == before.push(entries@[i as int].name@));
        }
        i += 1;
    }
    assert(entries@.take(entries.len() as int) == entries@);
    names
}

/// The posts of one day in two sequences that follow each other are those
/// of the first, then those of the second.
pub proof fn lemma_created_on_concat(a: Seq<PostView>, b: Seq<PostView>, day: int)
    ensures
        created_on(a + b, day) == created_on(a, day) + created_on(b, day),
    decreases b.len(),
{
    if b.len() == 0 {
        assert(a + b == a);
    } else {
        assert((a + b).drop_last() == a + b.drop_last());
        lemma_created_on_concat(a, b.drop_last(), day);
    }
}

/// Where no post was created on a day, the posts of that day are none.
pub proof fn lemma_created_on_none(a: Seq<PostView>, day: int)
    requires
        forall|i: int| 0 <= i < a.len() ==> created_ordinal(#[trigger] a[i]) != day,
    ensures
        created_on(a, day) == Seq::<PostView>::empty(),
    decreases a.len(),
{
    if a.len() > 0 {
        lemma_created_on_none(a.drop_last(), day);
    }
}

/// The posts of one day in a sequence are its first post, where it is of
/// that day, and those of the rest.
pub proof fn lemma_created_on_front(a: Seq<PostView>, day: int)
    requires
        a.len() > 0,
    ensures
        created_on(a, day) == if created_ordinal(a[0]) == day {
            seq![a[0]] + created_on(a.skip(1), day)
        } else {
            created_on(a.skip(1), day)
        },
{
    let first = seq![a[0]];
    assert(a == first + a.skip(1));
    lemma_created_on_concat(first, a.skip(1), day);
    assert(first.drop_last() == Seq::<PostView>::empty());
    assert(created_on(Seq::<PostView>::empty(), day) == Seq::<PostView>::empty());
    assert(created_on(first, day) == if created_ordinal(a[0]) == day {
        first
    } else {
        Seq::<PostView>::empty()
    });
}

/// The order is determined: two arrangements of the same posts, both
/// newest first and both with the posts of each day in the same order, are
/// the same arrangement.
pub proof fn lemma_stable_sort_unique(a: Seq<PostView>, b: Seq<PostView>)
    requires
        newest_first(a),
        newest_first(b),
        a.len() == b.len(),
        forall|day: int| #[trigger] created_on(a, day) == created_on(b, day),
    ensures
        a == b,
    decreases a.len(),
{
    if a.len() > 0 {
        let da = created_ordinal(a[0]);
        let db = created_ordinal(b[0]);
        lemma_created_on_front(a, da);
        lemma_created_on_front(b, db);
        assert(created_on(a, da) == created_on(b, da));
        assert(created_on(a, db) == created_on(b, db));
        if forall|i: int| 0 <= i < b.len() ==> created_ordinal(#[trigger] b[i]) != da {
            lemma_created_on_none(b, da);
            assert(false);
        }
        let j = choose|j: int| 0 <= j < b.len() && created_ordinal(#[trigger] b[j]) == da;
        assert(db >= da) by {
            if j > 0 {
                assert(created_ordinal(b[0]) >= created_ordinal(b[j]));
            }
        }
        if forall|i: int| 0 <= i < a.len() ==> created_ordinal(#[trigger] a[i]) != db {
            lemma_created_on_none(a, db);
            assert(false);
        }
        let k = choose|k: int| 0 <= k < a.len() && created_ordinal(#[trigger] a[k]) == db;
        assert(da >= db) by {
            if k > 0 {
                assert(created_ordinal(a[0]) >= created_ordinal(a[k]));
            }
        }
        lemma_created_on_front(b, da);
        assert(a[0] == b[0]) by {
            assert(created_on(a, da)[0] == a[0]);
            assert(created_on(b, da)[0] == b[0]);
        }
        let ra = a.skip(1);
        let rb = b.skip(1);
        assert(newest_first(ra)) by {
            assert forall|i: int, j: int| 0 <= i < j < ra.len() implies created_ordinal(
                #[trigger] ra[i],
            ) >= created_ordinal(#[trigger] ra[j]) by {
                assert(created_ordinal(a[i + 1]) >= created_ordinal(a[j + 1]));
            }
        }
        assert(newest_first(rb)) by {
            assert forall|i: int, j: int| 0 <= i < j < rb.len() implies created_ordinal(
                #[trigger] rb[i],
            ) >= created_ordinal(#[trigger] rb[j]) by {
                assert(created_ordinal(b[i + 1]) >= created_ordinal(b[j + 1]));
            }
        }
        assert forall|day: int| #[trigger] created_on(ra, day) == created_on(rb, day) by {
            lemma_created_on_front(a, day);
            lemma_created_on_front(b, day);
            assert(created_on(a, day) == created_on(b, day));
            if day == da {
                let x = seq![a[0]];
                assert((x + created_on(ra, day)).skip(1) == created_on(ra, day));
                assert((x + created_on(rb, day)).skip(1) == created_on(rb, day));
            }
        }
        lemma_stable_sort_unique(ra, rb);
        assert(a == seq![a[0]] + ra);
        assert(b == seq![b[0]] + rb);
    }
}

/// The post without what its summary was rendered to.
pub open spec fn without_summary(post: PostView) -> PostView {
    PostView {
        content: post.content,
        metadata: post.metadata,
        rendered_summary: Seq::empty(),
        url: post.url,
    }
}

/// The posts without what their summaries were rendered to.
pub open spec fn without_summaries(posts: Seq<PostView>) -> Seq<PostView> {
    Seq::new(posts.len(), |i: int| without_summary(posts[i]))
}

/// The posts of a day, without their summaries, are those of the posts
/// without their summaries.
pub proof fn lemma_created_on_without_summaries(posts: Seq<PostView>, day: int)
    ensures
        created_on(without_summaries(posts), day) == without_summaries(created_on(posts, day)),
    decreases posts.len(),
{
    let bare = without_summaries(posts);
    if posts.len() > 0 {
        lemma_created_on_without_summaries(posts.drop_last(), day);
        assert(bare.drop_last() == without_summaries(posts.drop_last()));
        assert(bare.last() == without_summary(posts.last()));
        let rest = created_on(posts.drop_last(), day);
        if created_ordinal(posts.last()) == day {
            assert(without_summaries(rest.push(posts.last())) == without_summaries(rest).push(
                without_summary(posts.last()),
            ));
        }
    } else {
        assert(without_summaries(Seq::<PostView>::empty()) == Seq::<PostView>::empty());
    }
}

/// The posts of a run, but for what their summaries were rendered to, are
/// determined by the files.
pub proof fn lemma_collection_is_determined(
    a: Seq<PostView>,
    b: Seq<PostView>,
    files: Seq<SourceFile>,
)
    requires
        is_collection_of(a, files),
        is_collection_of(b, files),
    ensures
        without_summaries(a) == without_summaries(b),
{
    let la = choose|loaded: Seq<PostView>|
        are_posts_of(loaded, files) && #[trigger] is_stable_sort_of(a, loaded);
    let lb = choose|loaded: Seq<PostView>|
        are_posts_of(loaded, files) && #[trigger] is_stable_sort_of(b, loaded);
    assert(without_summaries(la) == without_summaries(lb)) by {
        assert forall|i: int| 0 <= i < files.len() implies without_summary(la[i])
            == without_summary(lb[i]) by {
            assert(is_post_of(la[i], files[i].text@));
            assert(is_post_of(lb[i], files[i].text@));
        }
    }
    let sa = without_summaries(a);
    let sb = without_summaries(b);
    assert forall|day: int| #[trigger] created_on(sa, day) == created_on(sb, day) by {
        lemma_created_on_without_summaries(a, day);
        lemma_created_on_without_summaries(b, day);
        lemma_created_on_without_summaries(la, day);
        lemma_created_on_without_summaries(lb, day);
        assert(created_on(a, day) == created_on(la, day));
        assert(created_on(b, day) == created_on(lb, day));
    }
    assert(newest_first(sa)) by {
        assert forall|i: int, j: int| 0 <= i < j < sa.len() implies created_ordinal(
            #[trigger] sa[i],
        ) >= created_ordinal(#[trigger] sa[j]) by {
            assert(created_ordinal(a[i]) >= created_ordinal(a[j]));
        }
    }
    assert(newest_first(sb)) by {
        assert forall|i: int, j: int| 0 <= i < j < sb.len() implies created_ordinal(
            #[trigger] sb[i],
        ) >= created_ordinal(#[trigger] sb[j]) by {
            assert(created_ordinal(b[i]) >= created_ordinal(b[j]));
        }
    }
    lemma_stable_sort_unique(sa, sb);
}

/// The posts, newest first; those created on one day keep their order.
pub fn sort_posts(posts: Vec<Post>) -> (sorted: Vec<Post>)
    ensures
        is_stable_sort_of(post_views(sorted@), post_views(posts@)),
{
    let ghost all = post_views(posts@);
    let mut rest = posts;
    let mut sorted: Vec<Post> = Vec::new();
    assert(all.skip(rest.len() as int) == Seq::<PostView>::empty());
    while rest.len() > 0
        invariant
            rest.len() <= all.len(),
            post_views(rest@) == all.take(rest.len() as int),
            sorted.len() + rest.len() == all.len(),
            newest_first(post_views(sorted@)),
            forall|day: int| #[trigger]
                created_on(post_views(sorted@), day) == created_on(
                    all.skip(rest.len() as int),
                    day,
                ),
        decreases rest.len(),
    {
        let ghost n = rest.len() as int;
        let ghost old_rest = post_views(rest@);
        let post = rest.pop().unwrap();
        assert(post@ == all[n - 1]) by {
            assert(old_rest[n - 1] == all[n - 1]);
        }
        assert(post_views(rest@) == all.take(n - 1)) by {
            assert forall|k: int| 0 <= k < n - 1 implies post_views(rest@)[k] == all[k] by {
                assert(old_rest[k] == all[k]);
            }
        }
        let key = post.metadata.created.ordinal();
        let mut at: usize = 0;
        while at < sorted.len() && sorted[at].metadata.created.ordinal() > key
            invariant
                at <= sorted.len(),
                forall|j: int| 0 <= j < at ==> created_ordinal(#[trigger] post_views(sorted@)[j]) > key,
            decreases sorted.len() - at,
        {
            at += 1;
        }
        let ghost before = post_views(sorted@);
        sorted.insert(at, post);
        proof {
            let after = post_views(sorted@);
            let x = all[n - 1];
            assert(after == before.take(at as int) + seq![x] + before.skip(at as int));
            assert(before == before.take(at as int) + before.skip(at as int));
            assert(all.skip(n - 1) == seq![x] + all.skip(n));
            assert forall|i: int, j: int| 0 <= i < j < after.len() implies created_ordinal(
                #[trigger] after[i],
            ) >= created_ordinal(#[trigger] after[j]) by {
                if i < at && j > at {
                    assert(after[i] == before[i]);
                    assert(after[j] == before[j - 1]);
                } else if i < at && j == at {
                    assert(after[i] == before[i]);
                } else if i < at && j < at {
                    assert(after[i] == before[i]);
                    assert(after[j] == before[j]);
                } else if i == at {
                    assert(after[j] == before[j - 1]);
                    assert(created_ordinal(before[at as int]) <= key);
                    if j - 1 > at {
                        assert(created_ordinal(before[at as int]) >= created_ordinal(
                            before[j - 1],
                        ));
                    }
                } else {
                    assert(after[i] == before[i - 1]);
                    assert(after[j] == before[j - 1]);
                }
            }
            assert forall|day: int| #[trigger]
                created_on(after, day) == created_on(all.skip(n - 1), day) by {
                lemma_created_on_concat(before.take(at as int), before.skip(at as int), day);
                lemma_created_on_concat(before.take(at as int) + seq![x], before.skip(at as int), day);
                lemma_created_on_concat(before.take(at as int), seq![x], day);
                lemma_created_on_concat(seq![x], all.skip(n), day);
                assert(seq![x].drop_last() == Seq::<PostView>::empty());
                assert(seq![x].last() == x);
                assert(created_on(Seq::<PostView>::empty(), day) == Seq::<PostView>::empty());
                assert(created_ordinal(x) == key);
                assert(created_on(seq![x], day) == if day == key {
                    seq![x]
                } else {
                    Seq::<PostView>::empty()
                });
                assert(created_on(before, day) == created_on(all.skip(n), day));
                if day == key {
                    assert forall|i: int| 0 <= i < before.take(at as int).len() implies created_ordinal(
                        #[trigger] before.take(at as int)[i],
                    ) != day by {
                        assert(before.take(at as int)[i] == before[i]);
                    }
                    lemma_created_on_none(before.take(at as int), day);
                }
            }
        }
    }
    assert(all.skip(0) == all);
    sorted
}

/// The posts of the files, newest first. Each file is read in turn: its
/// header gives the metadata, its body is rendered from markdown, and its
/// summary through `post_summary_template`. The first file that fails
/// decides the error.
pub fn collect_posts(post_summary_template: &liquid::Template, files: &Vec<SourceFile>) -> (r:
    Result<Vec<Post>, SiteError>)
    ensures
        r matches Ok(posts) ==> is_collection_of(post_views(posts@), files@),
        r matches Err(SiteError::Parse { file, error }) ==> exists|i: int|
            0 <= i < files.len() && file == (#[trigger] files[i]).name && metadata_of(
                files[i].text@,
            ) == Err::<MetadataView, ParseErrorView>(error@) && forall|j: int|
                0 <= j < i ==> metadata_of((#[trigger] files[j]).text@) is Ok,
        r matches Err(SiteError::Render(e)) ==> is_summary_failure_of(e.document@, files@),
        !(r matches Err(SiteError::Template(_))),
{
    let md_opts = get_md_opts();
    let mut posts: Vec<Post> = Vec::new();
    let mut i: usize = 0;
    while i < files.len()
        invariant
            i <= files.len(),
            md_opts.tables && md_opts.footnotes && md_opts.strikethrough,
            are_posts_of(post_views(posts@), files@.take(i as int)),
        decreases files.len() - i,
    {
        let file = &files[i];
        let metadata = match Metadata::new(file.text.as_str()) {
            Ok(metadata) => metadata,
            Err(error) => {
                assert forall|j: int| 0 <= j < i implies metadata_of(
                    (#[trigger] files[j]).text@,
                ) is Ok by {
                    assert(is_post_of(post_views(posts@)[j], files@.take(i as int)[j].text@));
                }
                return Err(SiteError::Parse { file: file.name.clone(), error });
            },
        };
        let md_content = post_body(file.text.as_str());
        let content = md_to_html(md_content.as_str(), md_opts);
        let post = match Post::new(post_summary_template, metadata, content) {
            Ok(post) => post,
            Err(e) => {
                assert forall|j: int| 0 <= j <= i implies metadata_of(
                    (#[trigger] files[j]).text@,
                ) is Ok by {
                    if j < i {
                        assert(is_post_of(post_views(posts@)[j], files@.take(i as int)[j].text@));
                    }
                }
                assert(is_summary_failure_of(e.document@, files@));
                return Err(SiteError::Render(e));
            },
        };
        let ghost before = post_views(posts@);
        posts.push(post);
        proof {
            let after = post_views(posts@);
            assert(after == before.push(after[i as int]));
            assert forall|k: int| 0 <= k < i + 1 implies is_post_of(
                #[trigger] after[k],
                files@.take(i + 1)[k].text@,
            ) by {
                if k < i {
                    assert(is_post_of(before[k], files@.take(i as int)[k].text@));
                }
            }
        }
        i += 1;
    }
    let ghost loaded = post_views(posts@);
    assert(files@.take(files.len() as int) == files@);
    assert(are_posts_of(loaded, files@));
    let sorted = sort_posts(posts);
    assert(is_stable_sort_of(post_views(sorted@), loaded));
    Ok(sorted)
}

} // verus!
