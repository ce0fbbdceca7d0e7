use annotate::projector::{project, sorted_roots, stamp_precedes, Annotation, Row};

fn root(id: i64, created_at: Option<&str>) -> Annotation {
    Annotation {
        id,
        display_name: None,
        body_html: String::new(),
        parent_id: None,
        created_at: created_at.map(|t| t.to_string()),
    }
}

fn reply(id: i64, parent_id: i64) -> Annotation {
    Annotation {
        id,
        display_name: Some("r".to_string()),
        body_html: String::new(),
        parent_id: Some(parent_id),
        created_at: None,
    }
}

fn shown(items: &Vec<Annotation>) -> Vec<(i64, bool)> {
    project(items).iter().map(|row| (items[row.index].id, row.reply)).collect()
}

#[test]
fn roots_by_time_each_followed_by_its_replies() {
    let items = vec![
        root(1, Some("b")),
        root(2, Some("a")),
        reply(10, 2),
        reply(11, 1),
        reply(12, 99),
    ];
    assert_eq!(shown(&items), vec![(2, false), (10, true), (1, false), (11, true)]);
    assert!(shown(&items).iter().all(|(id, _)| *id != 12));
}

#[test]
fn rows_name_places_of_the_collection() {
    let items = vec![reply(10, 1), root(1, Some("b")), root(2, Some("a"))];
    assert_eq!(
        project(&items),
        vec![
            Row { index: 2, reply: false },
            Row { index: 1, reply: false },
            Row { index: 0, reply: true },
        ]
    );
}

#[test]
fn root_without_time_comes_first() {
    let items = vec![root(1, Some("")), root(2, Some("2025-01-01")), root(3, None)];
    assert_eq!(shown(&items), vec![(3, false), (1, false), (2, false)]);
}

#[test]
fn roots_of_equal_time_keep_their_order() {
    let items = vec![
        root(1, Some("t")),
        root(2, None),
        root(3, Some("t")),
        root(4, None),
        root(5, Some("s")),
        root(6, Some("t")),
    ];
    assert_eq!(sorted_roots(&items), vec![1, 3, 4, 0, 2, 5]);
}

#[test]
fn replies_keep_the_order_of_the_collection() {
    let items = vec![reply(30, 1), reply(20, 1), root(1, None), reply(10, 1)];
    assert_eq!(shown(&items), vec![(1, false), (30, true), (20, true), (10, true)]);
}

#[test]
fn reply_to_a_reply_vanishes() {
    let items = vec![root(1, None), reply(2, 1), reply(3, 2)];
    assert_eq!(shown(&items), vec![(1, false), (2, true)]);
}

#[test]
fn roots_that_share_an_identifier_share_their_replies() {
    let items = vec![root(1, Some("a")), root(1, Some("b")), reply(2, 1)];
    assert_eq!(shown(&items), vec![(1, false), (2, true), (1, false), (2, true)]);
}

#[test]
fn nothing_is_shown_for_nothing() {
    assert!(project(&Vec::new()).is_empty());
    assert!(project(&vec![reply(1, 2)]).is_empty());
}

#[test]
fn time_stamps_are_ordered_byte_by_byte() {
    let s = |t: &str| Some(t.to_string());
    assert!(stamp_precedes(&None, &s("")));
    assert!(!stamp_precedes(&None, &None));
    assert!(!stamp_precedes(&s(""), &None));
    assert!(stamp_precedes(&s(""), &s("a")));
    assert!(stamp_precedes(&s("a"), &s("ab")));
    assert!(stamp_precedes(&s("ab"), &s("b")));
    assert!(!stamp_precedes(&s("b"), &s("ab")));
    assert!(!stamp_precedes(&s("a"), &s("a")));
    assert!(stamp_precedes(&s("2025-09-12T10:00:00Z"), &s("2025-09-12T10:00:01Z")));
    assert!(stamp_precedes(&s("z"), &s("é")));
    assert!(stamp_precedes(&s("é"), &s("日")));
    for (a, b) in [("a", "b"), ("", "x"), ("Z", "a"), ("10", "9"), ("é", "日")] {
        assert_eq!(stamp_precedes(&s(a), &s(b)), a < b);
        assert_eq!(stamp_precedes(&s(b), &s(a)), b < a);
    }
}

#[test]
fn order_agrees_with_a_stable_sort_by_key() {
    let stamps = [Some("b"), None, Some("a"), Some("b"), Some(""), None, Some("ab"), Some("a")];
    let items: Vec<Annotation> = stamps.iter().enumerate().map(|(i, t)| root(i as i64, *t)).collect();
    let mut expected: Vec<usize> = (0..items.len()).collect();
    expected.sort_by_key(|i| items[*i].created_at.clone());
    assert_eq!(sorted_roots(&items), expected);
}

#[test]
fn annotation_without_a_name_is_anonymous() {
    assert_eq!(root(1, None).shown_name(), "Anonymous");
    assert_eq!(reply(1, 2).shown_name(), "r");
}
