//! What follows from the order of the posts: the neighbours of each post,
//! and the posts of each tag.

use vstd::prelude::*;
use crate::post::{post_views, Post, PostView};
use crate::text::{
    lemma_lex_less_irreflexive, lemma_lex_less_total, lemma_lex_less_transitive, lex_less,
    same_text, text_less,
};

verus! {

/// The slug of the post that follows the one at `index`, which is the
/// next older one.
pub open spec fn previous_of(posts: Seq<PostView>, index: int) -> Option<Seq<char>> {
    if 0 <= index && index + 1 < posts.len() {
        Some(posts[index + 1].metadata.slug)
    } else {
        None
    }
}

/// The slug of the post that stands before the one at `index`, which is
/// the next newer one.
pub open spec fn next_of(posts: Seq<PostView>, index: int) -> Option<Seq<char>> {
    if 0 < index <= posts.len() {
        Some(posts[index - 1].metadata.slug)
    } else {
        None
    }
}

/// The text of a string that may be there.
pub open spec fn option_text(text: Option<String>) -> Option<Seq<char>> {
    match text {
        Some(text) => Some(text@),
        None => None,
    }
}

/// Each tag of each post with the index of the post, in the order of the
/// posts and, within a post, of its tags.
pub open spec fn tag_pairs(posts: Seq<PostView>) -> Seq<(int, Seq<char>)>
    decreases posts.len(),
{
    if posts.len() == 0 {
        Seq::empty()
    } else {
        tag_pairs(posts.drop_last()) + Seq::new(
            posts.last().metadata.tags.len(),
            |k: int| (posts.len() - 1, posts.last().metadata.tags[k]),
        )
    }
}

/// The indices that stand with `tag`, in the order of the pairs.
pub open spec fn bucket_of(pairs: Seq<(int, Seq<char>)>, tag: Seq<char>) -> Seq<int>
    decreases pairs.len(),
{
    if pairs.len() == 0 {
        Seq::empty()
    } else {
        let rest = bucket_of(pairs.drop_last(), tag);
        if pairs.last().1 == tag {
            rest.push(pairs.last().0)
        } else {
            rest
        }
    }
}

/// The indices of a list, as numbers.
pub open spec fn indices(list: Seq<usize>) -> Seq<int> {
    Seq::new(list.len(), |i: int| list[i] as int)
}

/// The pairs of a list of pairs of an index and a tag.
pub open spec fn pair_list(pairs: Seq<(usize, String)>) -> Seq<(int, Seq<char>)> {
    Seq::new(pairs.len(), |i: int| (pairs[i].0 as int, pairs[i].1@))
}

/// A tag with the indices of the posts that carry it.
#[derive(Clone, Debug, PartialEq, Eq)]
pub struct TagBucket {
    pub tag: String,
    pub posts: Vec<usize>,
}

/// A `TagBucket` over sequences.
pub struct TagBucketView {
    pub tag: Seq<char>,
    pub posts: Seq<int>,
}

impl View for TagBucket {
    type V = TagBucketView;

    open spec fn view(&self) -> TagBucketView {
        TagBucketView { tag: self.tag@, posts: indices(self.posts@) }
    }
}

/// The tags of a site, each with its posts, in the order of a dictionary.
#[derive(Clone, Debug, PartialEq, Eq)]
pub struct TagMap {
    pub buckets: Vec<TagBucket>,
}

impl View for TagMap {
    type V = Seq<TagBucketView>;

    open spec fn view(&self) -> Seq<TagBucketView> {
        bucket_views(self.buckets@)
    }
}

/// The views of a sequence of buckets.
pub open spec fn bucket_views(buckets: Seq<TagBucket>) -> Seq<TagBucketView> {
    Seq::new(buckets.len(), |i: int| buckets[i]@)
}

/// Whether each tag comes before those that follow it, in the order of a
/// dictionary. No tag then occurs twice.
pub open spec fn tags_ascend(buckets: Seq<TagBucketView>) -> bool {
    forall|i: int, j: int|
        0 <= i < j < buckets.len() ==> lex_less(
            (#[trigger] buckets[i]).tag,
            (#[trigger] buckets[j]).tag,
        )
}

/// Whether a bucket has the tag `tag`.
pub open spec fn has_tag(buckets: Seq<TagBucketView>, tag: Seq<char>) -> bool {
    exists|i: int| 0 <= i < buckets.len() && (#[trigger] buckets[i]).tag == tag
}

/// Whether the buckets group the pairs: the tags ascend, each bucket holds
/// the indices that stand with its tag and at least one, and every tag of
/// a pair has a bucket.
pub open spec fn groups(buckets: Seq<TagBucketView>, pairs: Seq<(int, Seq<char>)>) -> bool {
    &&& tags_ascend(buckets)
    &&& forall|i: int|
        0 <= i < buckets.len() ==> (#[trigger] buckets[i]).posts == bucket_of(pairs, buckets[i].tag)
            && buckets[i].posts.len() > 0
    &&& forall|tag: Seq<char>|
        (#[trigger] bucket_of(pairs, tag)).len() > 0 ==> has_tag(buckets, tag)
}

/// How often `x` occurs in `list`.
pub open spec fn count_of(list: Seq<int>, x: int) -> nat
    decreases list.len(),
{
    if list.len() == 0 {
        0
    } else {
        count_of(list.drop_last(), x) + if list.last() == x {
            1nat
        } else {
            0nat
        }
    }
}

/// How often `tags` lists `tag`.
pub open spec fn times_listed(tags: Seq<Seq<char>>, tag: Seq<char>) -> nat
    decreases tags.len(),
{
    if tags.len() == 0 {
        0
    } else {
        times_listed(tags.drop_last(), tag) + if tags.last() == tag {
            1nat
        } else {
            0nat
        }
    }
}

/// The tags of one post, each with the index of the post.
pub open spec fn tag_row(index: int, tags: Seq<Seq<char>>) -> Seq<(int, Seq<char>)> {
    Seq::new(tags.len(), |k: int| (index, tags[k]))
}

/// The slugs of the posts next to the one at `index`: the next older one,
/// which follows it, and the next newer one, which stands before it.
pub fn neighbors(posts: &Vec<Post>, index: usize) -> (r: (Option<String>, Option<String>))
    ensures
        option_text(r.0) == previous_of(post_views(posts@), index as int),
        option_text(r.1) == next_of(post_views(posts@), index as int),
{
    let previous = if index < posts.len() && index + 1 < posts.len() {
        Some(posts[index + 1].metadata.slug.clone())
    } else {
        None
    };
    let next = if index > 0 && index <= posts.len() {
        Some(posts[index - 1].metadata.slug.clone())
    } else {
        None
    };
    (previous, next)
}

/// Each tag of each post with the index of the post.
pub fn collect_tag_pairs(posts: &Vec<Post>) -> (pairs: Vec<(usize, String)>)
    ensures
        pair_list(pairs@) == tag_pairs(post_views(posts@)),
{
    let mut pairs: Vec<(usize, String)> = Vec::new();
    let mut i: usize = 0;
    while i < posts.len()
        invariant
            i <= posts.len(),
            pair_list(pairs@) == tag_pairs(post_views(posts@).take(i as int)),
        decreases posts.len() - i,
    {
        let tags = &posts[i].metadata.tags;
        let ghost done = pair_list(pairs@);
        let ghost views = post_views(posts@).take(i + 1);
        assert(views.drop_last() == post_views(posts@).take(i as int));
        assert(views.last() == posts@[i as int]@);
        let ghost wanted = Seq::new(
            views.last().metadata.tags.len(),
            |k: int| (i as int, views.last().metadata.tags[k]),
        );
        let mut k: usize = 0;
        while k < tags.len()
            invariant
                k <= tags.len(),
                i < posts.len(),
                *tags == posts@[i as int].metadata.tags,
                views.last() == posts@[i as int]@,
                wanted == Seq::new(
                    views.last().metadata.tags.len(),
                    |k: int| (i as int, views.last().metadata.tags[k]),
                ),
                pair_list(pairs@) == done + wanted.take(k as int),
            decreases tags.len() - k,
        {
            let ghost before = pair_list(pairs@);
            pairs.push((i, tags[k].clone()));
            assert(pair_list(pairs@) == before.push(wanted[k as int]));
            k += 1;
        }
        assert(wanted.take(tags.len() as int) == wanted);
        i += 1;
    }
    assert(post_views(posts@).take(posts.len() as int) == post_views(posts@));
    pairs
}

/// The buckets of the pairs, in the order of the dictionary.
pub fn group(pairs: &Vec<(usize, String)>) -> (map: TagMap)
    ensures
        groups(map@, pair_list(pairs@)),
{
    let mut buckets: Vec<TagBucket> = Vec::new();
    let mut n: usize = 0;
    while n < pairs.len()
        invariant
            n <= pairs.len(),
            groups(bucket_views(buckets@), pair_list(pairs@).take(n as int)),
        decreases pairs.len() - n,
    {
        let post = pairs[n].0;
        let tag = &pairs[n].1;
        let ghost done = pair_list(pairs@).take(n as int);
        let ghost next = pair_list(pairs@).take(n + 1);
        let ghost before = bucket_views(buckets@);
        assert(next.drop_last() == done);
        assert(next.last() == (post as int, tag@));
        let mut at: usize = 0;
        while at < buckets.len() && text_less(buckets[at].tag.as_str(), tag.as_str())
            invariant
                at <= buckets.len(),
                forall|j: int| 0 <= j < at ==> lex_less((#[trigger] buckets@[j]).tag@, tag@),
            decreases buckets.len() - at,
        {
            at += 1;
        }
        if at < buckets.len() && same_text(buckets[at].tag.as_str(), tag.as_str()) {
            let mut bucket = buckets.remove(at);
            let ghost old_posts = indices(bucket.posts@);
            bucket.posts.push(post);
            assert(indices(bucket.posts@) == old_posts.push(post as int));
            buckets.insert(at, bucket);
            proof {
                let after = bucket_views(buckets@);
                assert(after.len() == before.len());
                assert forall|i: int| 0 <= i < after.len() implies (#[trigger] after[i]).tag
                    == before[i].tag && after[i].posts == bucket_of(next, after[i].tag)
                    && after[i].posts.len() > 0 by {
                    if i == at {
                        assert(before[i].posts == bucket_of(done, before[i].tag));
                    } else {
                        assert(after[i] == before[i]);
                        lemma_lex_less_irreflexive(tag@, 0);
                        if i < at {
                            assert(lex_less(before[i].tag, tag@));
                        } else {
                            assert(lex_less(before[at as int].tag, before[i].tag));
                        }
                        assert(after[i].tag != tag@);
                    }
                }
                assert(tags_ascend(after)) by {
                    assert forall|i: int, j: int| 0 <= i < j < after.len() implies lex_less(
                        (#[trigger] after[i]).tag,
                        (#[trigger] after[j]).tag,
                    ) by {
                        assert(lex_less(before[i].tag, before[j].tag));
                    }
                }
                assert forall|t: Seq<char>| (#[trigger] bucket_of(next, t)).len() > 0 implies has_tag(
                    after,
                    t,
                ) by {
                    if t == tag@ {
                        assert(after[at as int].tag == t);
                    } else {
                        assert(bucket_of(done, t).len() > 0);
                        assert(has_tag(before, t));
                        let i0 = choose|i: int| 0 <= i < before.len() && (#[trigger] before[i]).tag == t;
                        assert(after[i0].tag == t);
                    }
                }
            }
        } else {
            let mut members: Vec<usize> = Vec::new();
            members.push(post);
            buckets.insert(at, TagBucket { tag: tag.clone(), posts: members });
            proof {
                let after = bucket_views(buckets@);
                assert(after.len() == before.len() + 1);
                assert(after[at as int].tag == tag@);
                assert(after[at as int].posts == seq![post as int]);
                assert forall|i: int| 0 <= i < before.len() implies #[trigger] before[i] == after[if i
                    < at {
                    i
                } else {
                    i + 1
                }] by {}
                // every bucket from `at` on has a tag that comes after `tag`
                assert forall|j: int| at <= j < before.len() implies lex_less(
                    tag@,
                    (#[trigger] before[j]).tag,
                ) by {
                    assert(!lex_less(before[at as int].tag, tag@));
                    assert(before[at as int].tag != tag@);
                    assert(before[at as int].tag.take(0) == tag@.take(0));
                    lemma_lex_less_total(tag@, before[at as int].tag, 0);
                    if j > at {
                        assert(lex_less(before[at as int].tag, before[j].tag));
                        lemma_lex_less_transitive(tag@, before[at as int].tag, before[j].tag, 0);
                    }
                }
                assert forall|j: int| 0 <= j < before.len() implies (#[trigger] before[j]).tag
                    != tag@ by {
                    lemma_lex_less_irreflexive(tag@, 0);
                    if j < at {
                        assert(lex_less(buckets@[j].tag@, tag@)) by {
                            assert(before[j] == after[j]);
                        }
                    }
                }
                assert(!has_tag(before, tag@));
                assert(bucket_of(done, tag@).len() == 0);
                assert(bucket_of(done, tag@) == Seq::<int>::empty());
                assert(tags_ascend(after)) by {
                    assert forall|i: int, j: int| 0 <= i < j < after.len() implies lex_less(
                        (#[trigger] after[i]).tag,
                        (#[trigger] after[j]).tag,
                    ) by {
                        if i < at && j < at {
                            assert(lex_less(before[i].tag, before[j].tag));
                        } else if i < at && j == at {
                            assert(lex_less(before[i].tag, tag@));
                        } else if i < at && j > at {
                            assert(lex_less(before[i].tag, before[j - 1].tag));
                        } else if i == at {
                            assert(lex_less(tag@, before[j - 1].tag));
                        } else {
                            assert(lex_less(before[i - 1].tag, before[j - 1].tag));
                        }
                    }
                }
                assert forall|i: int| 0 <= i < after.len() implies (#[trigger] after[i]).posts
                    == bucket_of(next, after[i].tag) && after[i].posts.len() > 0 by {
                    if i < at {
                        assert(after[i] == before[i]);
                        assert(before[i].posts == bucket_of(done, before[i].tag));
                    } else if i > at {
                        assert(after[i] == before[i - 1]);
                        assert(before[i - 1].posts == bucket_of(done, before[i - 1].tag));
                    }
                }
                assert forall|t: Seq<char>| (#[trigger] bucket_of(next, t)).len() > 0 implies has_tag(
                    after,
                    t,
                ) by {
                    if t == tag@ {
                        assert(after[at as int].tag == t);
                    } else {
                        assert(bucket_of(done, t).len() > 0);
                        assert(has_tag(before, t));
                        let i0 = choose|i: int| 0 <= i < before.len() && (#[trigger] before[i]).tag == t;
                        if i0 < at {
                            assert(after[i0].tag == t);
                        } else {
                            assert(after[i0 + 1].tag == t);
                        }
                    }
                }
            }
        }
        n += 1;
    }
    assert(pair_list(pairs@).take(pairs.len() as int) == pair_list(pairs@));
    TagMap { buckets }
}

/// The tags of the posts, each with the indices of the posts that carry
/// it: a post once for each time that it lists the tag, in the order of the
/// posts.
pub fn tag_map(posts: &Vec<Post>) -> (map: TagMap)
    ensures
        groups(map@, tag_pairs(post_views(posts@))),
{
    let pairs = collect_tag_pairs(posts);
    group(&pairs)
}

/// The newest post, which stands first, has no next post; the oldest,
/// which stands last, has no previous one; and each post has as its
/// previous and its next post the ones that stand after and before it.
pub proof fn lemma_navigation_boundaries(posts: Seq<PostView>, index: int)
    requires
        0 <= index < posts.len(),
    ensures
        index == 0 <==> next_of(posts, index) is None,
        index == posts.len() - 1 <==> previous_of(posts, index) is None,
        index > 0 ==> next_of(posts, index) == Some(posts[index - 1].metadata.slug),
        index < posts.len() - 1 ==> previous_of(posts, index) == Some(
            posts[index + 1].metadata.slug,
        ),
{
}

/// The indices that stand with a tag in two lists of pairs that follow
/// each other are those of the first, then those of the second.
pub proof fn lemma_bucket_of_concat(
    a: Seq<(int, Seq<char>)>,
    b: Seq<(int, Seq<char>)>,
    tag: Seq<char>,
)
    ensures
        bucket_of(a + b, tag) == bucket_of(a, tag) + bucket_of(b, tag),
    decreases b.len(),
{
    if b.len() == 0 {
        assert(a + b == a);
    } else {
        assert((a + b).drop_last() == a + b.drop_last());
        lemma_bucket_of_concat(a, b.drop_last(), tag);
    }
}

/// An index occurs in two lists that follow each other as often as in the
/// first and in the second together.
pub proof fn lemma_count_of_concat(a: Seq<int>, b: Seq<int>, x: int)
    ensures
        count_of(a + b, x) == count_of(a, x) + count_of(b, x),
    decreases b.len(),
{
    if b.len() == 0 {
        assert(a + b == a);
    } else {
        assert((a + b).drop_last() == a + b.drop_last());
        lemma_count_of_concat(a, b.drop_last(), x);
    }
}

/// Among the pairs of one post, its index stands with a tag as often as
/// the post lists the tag, and no other index stands there.
pub proof fn lemma_tag_row_counts(index: int, tags: Seq<Seq<char>>, tag: Seq<char>, x: int)
    ensures
        count_of(bucket_of(tag_row(index, tags), tag), x) == if x == index {
            times_listed(tags, tag)
        } else {
            0
        },
    decreases tags.len(),
{
    let row = tag_row(index, tags);
    if tags.len() > 0 {
        assert(row.drop_last() == tag_row(index, tags.drop_last()));
        lemma_tag_row_counts(index, tags.drop_last(), tag, x);
        let rest = bucket_of(row.drop_last(), tag);
        assert(row.last() == (index, tags.last()));
        if tags.last() == tag {
            assert(bucket_of(row, tag) == rest.push(index));
            assert(rest.push(index).drop_last() == rest);
            assert(rest.push(index).last() == index);
        } else {
            assert(bucket_of(row, tag) == rest);
        }
    } else {
        assert(bucket_of(row, tag) == Seq::<int>::empty());
    }
}

/// A post stands in the bucket of a tag once for each time that it lists
/// the tag: no post is missing from a bucket of one of its tags, and none
/// stands under a tag that it does not have.
pub proof fn lemma_bucket_counts(posts: Seq<PostView>, tag: Seq<char>, index: int)
    ensures
        count_of(bucket_of(tag_pairs(posts), tag), index) == if 0 <= index < posts.len() {
            times_listed(posts[index].metadata.tags, tag)
        } else {
            0
        },
    decreases posts.len(),
{
    if posts.len() > 0 {
        let rest = posts.drop_last();
        let row = tag_row(posts.len() - 1, posts.last().metadata.tags);
        assert(tag_pairs(posts) == tag_pairs(rest) + row);
        lemma_bucket_counts(rest, tag, index);
        lemma_bucket_of_concat(tag_pairs(rest), row, tag);
        lemma_count_of_concat(bucket_of(tag_pairs(rest), tag), bucket_of(row, tag), index);
        lemma_tag_row_counts(posts.len() - 1, posts.last().metadata.tags, tag, index);
    }
}

/// A list without repetitions lists a tag once or not at all.
pub proof fn lemma_times_listed_once(tags: Seq<Seq<char>>, tag: Seq<char>)
    requires
        tags.no_duplicates(),
    ensures
        times_listed(tags, tag) == if tags.contains(tag) {
            1nat
        } else {
            0nat
        },
    decreases tags.len(),
{
    if tags.len() > 0 {
        let rest = tags.drop_last();
        lemma_times_listed_once(rest, tag);
        if rest.contains(tag) {
            let k = choose|k: int| 0 <= k < rest.len() && rest[k] == tag;
            assert(tags[k] == tag);
            assert(tags.contains(tag));
        }
        if tags.last() == tag {
            assert(tags[tags.len() - 1] == tag);
            if rest.contains(tag) {
                let k = choose|k: int| 0 <= k < rest.len() && rest[k] == tag;
                assert(tags[k] == tags[tags.len() - 1]);
            }
        } else if tags.contains(tag) {
            let k = choose|k: int| 0 <= k < tags.len() && tags[k] == tag;
            assert(rest[k] == tag);
        }
    }
}

/// An index that a list holds occurs in it.
pub proof fn lemma_count_of_contains(list: Seq<int>, x: int)
    ensures
        list.contains(x) <==> count_of(list, x) > 0,
    decreases list.len(),
{
    if list.len() > 0 {
        let rest = list.drop_last();
        lemma_count_of_contains(rest, x);
        if rest.contains(x) {
            let k = choose|k: int| 0 <= k < rest.len() && rest[k] == x;
            assert(list[k] == x);
        }
        if list.last() == x {
            assert(list[list.len() - 1] == x);
        } else if list.contains(x) {
            let k = choose|k: int| 0 <= k < list.len() && list[k] == x;
            assert(rest[k] == x);
        }
    }
}

/// Whether one of the posts lists `tag`.
pub open spec fn is_tag_of(posts: Seq<PostView>, tag: Seq<char>) -> bool {
    exists|i: int, k: int|
        0 <= i < posts.len() && 0 <= k < posts[i].metadata.tags.len()
            && #[trigger] posts[i].metadata.tags[k] == tag
}

/// A tag that a list lists at least once stands in the list.
pub proof fn lemma_times_listed_positive(tags: Seq<Seq<char>>, tag: Seq<char>)
    requires
        times_listed(tags, tag) > 0,
    ensures
        exists|k: int| 0 <= k < tags.len() && #[trigger] tags[k] == tag,
    decreases tags.len(),
{
    if tags.len() > 0 {
        if tags.last() == tag {
            assert(tags[tags.len() - 1] == tag);
        } else {
            lemma_times_listed_positive(tags.drop_last(), tag);
            let k = choose|k: int|
                0 <= k < tags.drop_last().len() && #[trigger] tags.drop_last()[k] == tag;
            assert(tags[k] == tag);
        }
    }
}

/// The tag of every bucket is a tag of one of the posts.
pub proof fn lemma_bucket_tag_is_listed(
    buckets: Seq<TagBucketView>,
    posts: Seq<PostView>,
    at: int,
)
    requires
        groups(buckets, tag_pairs(posts)),
        0 <= at < buckets.len(),
    ensures
        is_tag_of(posts, buckets[at].tag),
{
    let tag = buckets[at].tag;
    let bucket = bucket_of(tag_pairs(posts), tag);
    assert(buckets[at].posts == bucket);
    let x = bucket[0];
    lemma_count_of_contains(bucket, x);
    lemma_bucket_counts(posts, tag, x);
    lemma_times_listed_positive(posts[x].metadata.tags, tag);
    let k = choose|k: int|
        0 <= k < posts[x].metadata.tags.len() && #[trigger] posts[x].metadata.tags[k] == tag;
    assert(posts[x].metadata.tags[k] == tag);
}

/// Every index in the bucket of a tag is the index of a post.
pub proof fn lemma_bucket_members_in_range(posts: Seq<PostView>, tag: Seq<char>)
    ensures
        forall|k: int|
            0 <= k < bucket_of(tag_pairs(posts), tag).len() ==> 0 <= (#[trigger] bucket_of(
                tag_pairs(posts),
                tag,
            )[k]) < posts.len(),
{
    let bucket = bucket_of(tag_pairs(posts), tag);
    assert forall|k: int| 0 <= k < bucket.len() implies 0 <= (#[trigger] bucket[k]) < posts.len() by {
        lemma_count_of_contains(bucket, bucket[k]);
        lemma_bucket_counts(posts, tag, bucket[k]);
    }
}

/// A tag that stands in a list is listed at least once.
pub proof fn lemma_times_listed_of_member(tags: Seq<Seq<char>>, tag: Seq<char>)
    requires
        tags.contains(tag),
    ensures
        times_listed(tags, tag) > 0,
    decreases tags.len(),
{
    if tags.len() > 0 && tags.last() != tag {
        let k = choose|k: int| 0 <= k < tags.len() && tags[k] == tag;
        assert(tags.drop_last()[k] == tag);
        lemma_times_listed_of_member(tags.drop_last(), tag);
    }
}

/// For every post and every tag on it, the tag has a bucket and the post
/// stands in that bucket; and no post stands in the bucket of a tag that it
/// does not have.
pub proof fn lemma_tag_grouping_sound(
    buckets: Seq<TagBucketView>,
    posts: Seq<PostView>,
    index: int,
    at: int,
)
    requires
        groups(buckets, tag_pairs(posts)),
        0 <= index < posts.len(),
        0 <= at < buckets.len(),
    ensures
        forall|tag: Seq<char>| #[trigger]
            posts[index].metadata.tags.contains(tag) ==> has_tag(buckets, tag),
        buckets[at].posts.contains(index) <==> posts[index].metadata.tags.contains(
            buckets[at].tag,
        ),
{
    let tags = posts[index].metadata.tags;
    assert forall|tag: Seq<char>| #[trigger] tags.contains(tag) implies has_tag(buckets, tag) by {
        lemma_bucket_counts(posts, tag, index);
        lemma_times_listed_of_member(tags, tag);
        lemma_count_of_contains(bucket_of(tag_pairs(posts), tag), index);
        assert(bucket_of(tag_pairs(posts), tag).len() > 0);
    }
    let tag = buckets[at].tag;
    lemma_bucket_counts(posts, tag, index);
    lemma_count_of_contains(buckets[at].posts, index);
    if tags.contains(tag) {
        lemma_times_listed_of_member(tags, tag);
    }
    if times_listed(tags, tag) > 0 {
        lemma_times_listed_positive(tags, tag);
        let k = choose|k: int| 0 <= k < tags.len() && #[trigger] tags[k] == tag;
        assert(tags.contains(tag));
    }
}

/// Where a post lists no tag twice, it stands exactly once in the bucket
/// of each of its tags.
pub proof fn lemma_tag_grouping_complete(
    buckets: Seq<TagBucketView>,
    posts: Seq<PostView>,
    index: int,
    at: int,
)
    requires
        groups(buckets, tag_pairs(posts)),
        0 <= index < posts.len(),
        posts[index].metadata.tags.no_duplicates(),
        0 <= at < buckets.len(),
        posts[index].metadata.tags.contains(buckets[at].tag),
    ensures
        count_of(buckets[at].posts, index) == 1,
{
    lemma_bucket_counts(posts, buckets[at].tag, index);
    lemma_times_listed_once(posts[index].metadata.tags, buckets[at].tag);
}

} // verus!
