use speedy::metadata::Metadata;
use speedy::post::Post;
use speedy::relations::{collect_tag_pairs, group, neighbors, tag_map, TagBucket, TagMap};

fn post(slug: &str, tags: &str) -> Post {
    let text = format!(
        "title: T\nslug: {slug}\ncreated: 2023-01-01\nupdated: 2023-01-01\ntags: {tags}\nsummary: S\n"
    );
    Post::from_parts(Metadata::new(&text).unwrap(), String::new(), String::new())
}

fn bucket(tag: &str, posts: Vec<usize>) -> TagBucket {
    TagBucket { tag: tag.to_string(), posts }
}

#[test]
fn neighbors_of_the_first_the_last_and_the_middle() {
    let posts = vec![post("newest", "a"), post("middle", "a"), post("oldest", "a")];
    assert_eq!(neighbors(&posts, 0), (Some("middle".to_string()), None));
    assert_eq!(neighbors(&posts, 1), (Some("oldest".to_string()), Some("newest".to_string())));
    assert_eq!(neighbors(&posts, 2), (None, Some("middle".to_string())));
}

#[test]
fn neighbors_of_a_single_post_and_of_none() {
    assert_eq!(neighbors(&vec![post("only", "a")], 0), (None, None));
    assert_eq!(neighbors(&Vec::new(), 0), (None, None));
}

#[test]
fn neighbors_past_the_end() {
    let posts = vec![post("a", "x"), post("b", "x")];
    assert_eq!(neighbors(&posts, 2), (None, Some("b".to_string())));
    assert_eq!(neighbors(&posts, 3), (None, None));
    assert_eq!(neighbors(&posts, usize::MAX), (None, None));
}

#[test]
fn tag_pairs_follow_posts_and_tags() {
    let posts = vec![post("s0", "rust, blog"), post("s1", "blog")];
    assert_eq!(
        collect_tag_pairs(&posts),
        vec![(0, "rust".to_string()), (0, "blog".to_string()), (1, "blog".to_string())]
    );
}

#[test]
fn tag_map_groups_posts_by_tag() {
    let posts = vec![post("s0", "rust, blog"), post("s1", "blog"), post("s2", "rust, zebra, apple")];
    assert_eq!(
        tag_map(&posts),
        TagMap {
            buckets: vec![
                bucket("apple", vec![2]),
                bucket("blog", vec![0, 1]),
                bucket("rust", vec![0, 2]),
                bucket("zebra", vec![2]),
            ],
        }
    );
}

#[test]
fn tags_are_told_apart_by_case() {
    let posts = vec![post("s0", "rust"), post("s1", "Rust"), post("s2", "rust")];
    assert_eq!(
        tag_map(&posts),
        TagMap { buckets: vec![bucket("Rust", vec![1]), bucket("rust", vec![0, 2])] }
    );
}

#[test]
fn a_tag_listed_twice_holds_its_post_twice() {
    let posts = vec![post("s0", "a, a"), post("s1", "a")];
    assert_eq!(tag_map(&posts), TagMap { buckets: vec![bucket("a", vec![0, 0, 1])] });
}

#[test]
fn tag_map_of_no_posts_is_empty() {
    assert_eq!(tag_map(&Vec::new()), TagMap { buckets: Vec::new() });
}

#[test]
fn group_orders_tags_as_str_does() {
    let pairs = vec![
        (0, "b".to_string()),
        (1, "ab".to_string()),
        (2, "a".to_string()),
        (3, "é".to_string()),
        (4, "Z".to_string()),
        (5, "".to_string()),
    ];
    let tags: Vec<String> = group(&pairs).buckets.iter().map(|b| b.tag.clone()).collect();
    let mut expected: Vec<String> = pairs.iter().map(|p| p.1.clone()).collect();
    expected.sort();
    assert_eq!(tags, expected);
}

#[test]
fn every_post_stands_once_under_each_of_its_tags() {
    let posts = vec![post("s0", "x, y"), post("s1", "y, z"), post("s2", "z, x, w")];
    let map = tag_map(&posts);
    for (i, p) in posts.iter().enumerate() {
        for b in map.buckets.iter() {
            let count = b.posts.iter().filter(|&&k| k == i).count();
            let has = p.metadata.tags.contains(&b.tag);
            assert_eq!(count, if has { 1 } else { 0 });
        }
        for t in p.metadata.tags.iter() {
            assert!(map.buckets.iter().any(|b| &b.tag == t));
        }
    }
}
