use annotate::envelope::{build_envelope, locate_selection};

#[test]
fn envelope_in_the_middle_has_both_contexts() {
    let text = "The quick brown fox jumps over the lazy dog and keeps running far away";
    let e = build_envelope("fox", text, "jumps", 20, 25);
    assert_eq!(e.target.source, "/posts/fox");
    assert_eq!(e.target.quote.exact, "jumps");
    assert_eq!(e.target.quote.prefix.as_deref(), Some("The quick brown fox "));
    assert_eq!(e.target.quote.suffix.as_deref(), Some(" over the lazy dog a"));
    assert_eq!(e.target.position.start, 20);
    assert_eq!(e.target.position.end, 25);
    assert_eq!(e.kind(), "Annotation");
    assert_eq!(e.unit(), "codepoint");
}

#[test]
fn envelope_at_the_start_has_no_prefix() {
    let e = build_envelope("a", "hello world", "hello", 0, 5);
    assert_eq!(e.target.quote.prefix, None);
    assert_eq!(e.target.quote.suffix.as_deref(), Some(" world"));
}

#[test]
fn envelope_at_the_end_has_no_suffix() {
    let e = build_envelope("a", "hello world", "world", 6, 11);
    assert_eq!(e.target.quote.prefix.as_deref(), Some("hello "));
    assert_eq!(e.target.quote.suffix, None);
}

#[test]
fn selection_is_placed_at_the_first_occurrence() {
    let sel = locate_selection("abc abc abc", "abc").unwrap();
    assert_eq!((sel.exact.as_str(), sel.start, sel.end), ("abc", 0, 3));
    let sel = locate_selection("xx abc abc", "abc").unwrap();
    assert_eq!((sel.start, sel.end), (3, 6));
}

#[test]
fn selection_offsets_count_codepoints() {
    let sel = locate_selection("日本語のテキスト", "テキ").unwrap();
    assert_eq!((sel.start, sel.end), (4, 6));
}

#[test]
fn empty_or_absent_selection_is_rejected() {
    assert!(locate_selection("hello", "").is_none());
    assert!(locate_selection("hello", "world").is_none());
    assert!(locate_selection("", "a").is_none());
    assert!(locate_selection("ab", "abc").is_none());
}

#[test]
fn context_is_cut_at_twenty_codepoints() {
    let text = "日".repeat(30) + "quote" + &"本".repeat(30);
    let e = build_envelope("a", &text, "quote", 30, 35);
    assert_eq!(e.target.quote.prefix, Some("日".repeat(20)));
    assert_eq!(e.target.quote.suffix, Some("本".repeat(20)));
    let e = build_envelope("a", &text, "日", 1, 2);
    assert_eq!(e.target.quote.prefix.as_deref(), Some("日"));
    let e = build_envelope("a", &text, "本", 63, 64);
    assert_eq!(e.target.quote.suffix.as_deref(), Some("本"));
}

#[test]
fn offsets_outside_the_text_are_taken_as_they_are() {
    let e = build_envelope("a", "hello", "zzz", 10, 12);
    assert_eq!(e.target.quote.prefix.as_deref(), Some("hello"));
    assert_eq!(e.target.quote.suffix, None);
    assert_eq!((e.target.position.start, e.target.position.end), (10, 12));
    let e = build_envelope("a", "hello", "zzz", 30, 2);
    assert_eq!(e.target.quote.prefix.as_deref(), Some(""));
    assert_eq!(e.target.quote.suffix.as_deref(), Some("llo"));
    let e = build_envelope("a", "", "", 0, 0);
    assert_eq!(e.target.quote.prefix, None);
    assert_eq!(e.target.quote.suffix, None);
    let e = build_envelope("a", "hello", "", usize::MAX, usize::MAX);
    assert_eq!(e.target.quote.prefix.as_deref(), Some(""));
    assert_eq!(e.target.quote.suffix, None);
}

#[test]
fn located_selection_builds_an_anchored_envelope() {
    let text = "one two three two one";
    let sel = locate_selection(text, "two").unwrap();
    let e = build_envelope("n", text, &sel.exact, sel.start, sel.end);
    let chars: Vec<char> = text.chars().collect();
    let span: String = chars[e.target.position.start..e.target.position.end].iter().collect();
    assert!(e.target.position.start < e.target.position.end);
    assert!(e.target.position.end <= chars.len());
    assert_eq!(span, e.target.quote.exact);
    assert_eq!(e.target.quote.prefix.as_deref(), Some("one "));
    assert_eq!(e.target.quote.suffix.as_deref(), Some(" three two one"));
    let copy = e.duplicate();
    assert_eq!(copy.target.source, e.target.source);
    assert_eq!(copy.target.quote.prefix, e.target.quote.prefix);
    assert_eq!(copy.target.position, e.target.position);
}
