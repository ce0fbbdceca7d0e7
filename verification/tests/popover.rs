use annotate::popover::{preview_text, Popover, ANCHOR_MARGIN_PX, PREVIEW_LIMIT};

#[test]
fn short_quote_is_its_own_preview() {
    assert_eq!(preview_text("hello"), "hello");
    assert_eq!(preview_text(""), "");
    let eighty = "x".repeat(80);
    assert_eq!(preview_text(&eighty), eighty);
}

#[test]
fn long_quote_is_cut_at_eighty_codepoints() {
    let long = "y".repeat(81);
    assert_eq!(preview_text(&long), format!("{}…", "y".repeat(80)));
    let wide = "日".repeat(100);
    let preview = preview_text(&wide);
    assert_eq!(preview.chars().count(), PREVIEW_LIMIT + 1);
    assert_eq!(preview, format!("{}…", "日".repeat(80)));
}

#[test]
fn selection_with_a_rectangle_shows_the_popover() {
    let mut p: Popover<(f64, f64)> = Popover::new();
    assert!(!p.is_visible());
    let margin = ANCHOR_MARGIN_PX as f64;
    p.select("quote", Some((100.0 + margin, 50.0 + margin)));
    match &p {
        Popover::Shown { anchor, preview } => {
            assert_eq!(*anchor, (106.0, 56.0));
            assert_eq!(preview, "quote");
        }
        Popover::Hidden => panic!("the popover must be shown"),
    }
}

#[test]
fn selection_without_a_rectangle_leaves_the_popover_hidden() {
    let mut p: Popover<(f64, f64)> = Popover::new();
    p.select("quote", None);
    assert!(!p.is_visible());
    assert!(matches!(p, Popover::Hidden));
}

#[test]
fn new_selection_replaces_what_is_shown() {
    let mut p: Popover<(i32, i32)> = Popover::new();
    p.select("one", Some((1, 2)));
    p.select("two", Some((3, 4)));
    assert!(matches!(&p, Popover::Shown { anchor: (3, 4), preview } if preview == "two"));
    p.select("three", None);
    assert!(matches!(&p, Popover::Shown { anchor: (3, 4), preview } if preview == "two"));
    p.dismiss();
    assert!(!p.is_visible());
}
