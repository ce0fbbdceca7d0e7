use annotate::route::path_slug;

#[test]
fn slug_is_the_segment_after_posts() {
    assert_eq!(path_slug("/posts/hello-world").as_deref(), Some("hello-world"));
    assert_eq!(path_slug("/posts/hello/extra").as_deref(), Some("hello"));
    assert_eq!(path_slug("posts/hello").as_deref(), Some("hello"));
    assert_eq!(path_slug("/posts/日本語/").as_deref(), Some("日本語"));
}

#[test]
fn empty_segments_do_not_count() {
    assert_eq!(path_slug("//posts///hello//").as_deref(), Some("hello"));
}

#[test]
fn other_paths_name_no_article() {
    assert_eq!(path_slug(""), None);
    assert_eq!(path_slug("/"), None);
    assert_eq!(path_slug("/posts"), None);
    assert_eq!(path_slug("/posts/"), None);
    assert_eq!(path_slug("/about/hello"), None);
    assert_eq!(path_slug("/post/hello"), None);
    assert_eq!(path_slug("/postsx/hello"), None);
    assert_eq!(path_slug("/Posts/hello"), None);
    assert_eq!(path_slug("/blog/posts/hello"), None);
}
