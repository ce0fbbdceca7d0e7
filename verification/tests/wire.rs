use annotate::envelope::{build_envelope, Envelope, Target, TextPositionSelector, TextQuoteSelector};
use annotate::wire::{decode_envelope, encode_envelope, push_json_opt_string, push_json_string};

fn envelope(
    source: &str,
    exact: &str,
    prefix: Option<&str>,
    suffix: Option<&str>,
    start: usize,
    end: usize,
) -> Envelope {
    Envelope {
        target: Target {
            source: source.to_string(),
            quote: TextQuoteSelector {
                exact: exact.to_string(),
                prefix: prefix.map(|p| p.to_string()),
                suffix: suffix.map(|s| s.to_string()),
            },
            position: TextPositionSelector { start, end },
        },
    }
}

fn same(a: &Envelope, b: &Envelope) -> bool {
    a.target.source == b.target.source
        && a.target.quote.exact == b.target.quote.exact
        && a.target.quote.prefix == b.target.quote.prefix
        && a.target.quote.suffix == b.target.quote.suffix
        && a.target.position == b.target.position
}

#[test]
fn envelope_is_written_compactly_in_member_order() {
    let e = envelope("/posts/a", "lo w", Some("hel"), Some("orld"), 3, 7);
    assert_eq!(
        encode_envelope(&e),
        "{\"type\":\"Annotation\",\"target\":{\"source\":\"/posts/a\",\"selector\":[\
         {\"type\":\"TextQuoteSelector\",\"exact\":\"lo w\",\"prefix\":\"hel\",\"suffix\":\"orld\"},\
         {\"type\":\"TextPositionSelector\",\"start\":3,\"end\":7,\"unit\":\"codepoint\"}]}}"
    );
}

#[test]
fn absent_context_is_written_as_null() {
    let e = envelope("/posts/a", "x", None, None, 0, 1);
    assert_eq!(
        encode_envelope(&e),
        "{\"type\":\"Annotation\",\"target\":{\"source\":\"/posts/a\",\"selector\":[\
         {\"type\":\"TextQuoteSelector\",\"exact\":\"x\",\"prefix\":null,\"suffix\":null},\
         {\"type\":\"TextPositionSelector\",\"start\":0,\"end\":1,\"unit\":\"codepoint\"}]}}"
    );
}

#[test]
fn written_envelope_is_json_with_every_field() {
    let e = envelope("/posts/q", "say \"hi\"\n", Some("a\\b"), None, 12, 21);
    let text = encode_envelope(&e);
    let value: serde_json::Value = serde_json::from_str(&text).unwrap();
    assert_eq!(value["type"].as_str(), Some(e.kind()));
    assert_eq!(value["target"]["source"].as_str(), Some("/posts/q"));
    let selectors = value["target"]["selector"].as_array().unwrap();
    assert_eq!(selectors.len(), 2);
    assert_eq!(selectors[0]["type"].as_str(), Some("TextQuoteSelector"));
    assert_eq!(selectors[0]["exact"].as_str(), Some("say \"hi\"\n"));
    assert_eq!(selectors[0]["prefix"].as_str(), Some("a\\b"));
    assert!(selectors[0]["suffix"].is_null());
    assert_eq!(selectors[1]["type"].as_str(), Some("TextPositionSelector"));
    assert_eq!(selectors[1]["start"].as_u64(), Some(12));
    assert_eq!(selectors[1]["end"].as_u64(), Some(21));
    assert_eq!(selectors[1]["unit"].as_str(), Some(e.unit()));
}

#[test]
fn string_literals_escape_what_json_asks() {
    let mut out = String::new();
    push_json_string(&mut out, "a\"b\\c\u{8}\t\n\u{c}\r\u{0}\u{1f}\u{7f} é日");
    assert_eq!(out, "\"a\\\"b\\\\c\\b\\t\\n\\f\\r\\u0000\\u001f\u{7f} é日\"");
}

#[test]
fn string_literal_is_appended_to_what_is_there() {
    let mut out = String::from("x=");
    push_json_string(&mut out, "plain");
    assert_eq!(out, "x=\"plain\"");
    push_json_opt_string(&mut out, &None);
    assert_eq!(out, "x=\"plain\"null");
    push_json_opt_string(&mut out, &Some("y".to_string()));
    assert_eq!(out, "x=\"plain\"null\"y\"");
}

#[test]
fn envelope_round_trips_field_for_field() {
    let cases = vec![
        envelope("/posts/a", "lo w", Some("hel"), Some("orld"), 3, 7),
        envelope("/posts/a", "x", None, None, 0, 1),
        envelope("", "", Some(""), Some(""), 0, 0),
        envelope("/posts/日本", "引用\"\\", Some("\u{1}\u{1f}\n"), Some("null"), 10, 999999),
        envelope("/posts/n", "null", None, Some("\t\r\u{8}\u{c}"), 18446744073709551615, 7),
        envelope("/posts/e", "tail\\", Some("\\\""), Some("\"},{"), 5, 10),
    ];
    for e in cases {
        let back = decode_envelope(&encode_envelope(&e)).unwrap();
        assert!(same(&back, &e));
    }
}

#[test]
fn built_envelope_round_trips() {
    let text = "Selections \"survive\" reloads\nand minor re-renders of the article body.";
    let e = build_envelope("reloads", text, "\"survive\"", 11, 20);
    let back = decode_envelope(&encode_envelope(&e)).unwrap();
    assert!(same(&back, &e));
    assert_eq!(back.target.quote.prefix.as_deref(), Some("Selections "));
    assert_eq!(back.target.quote.suffix.as_deref(), Some(" reloads\nand minor r"));
}

#[test]
fn other_text_is_not_read_as_an_envelope() {
    let good = encode_envelope(&envelope("/posts/a", "x", None, None, 0, 1));
    assert!(decode_envelope(&good).is_some());
    assert!(decode_envelope("").is_none());
    assert!(decode_envelope("{}").is_none());
    assert!(decode_envelope(&good[..good.len() - 1]).is_none());
    assert!(decode_envelope(&format!("{} ", good)).is_none());
    assert!(decode_envelope(&good.replace("\"start\":0", "\"start\":00")).is_none());
    assert!(decode_envelope(&good.replace("\"start\":0", "\"start\":-1")).is_none());
    assert!(decode_envelope(&good.replace("\"start\":0", "\"start\":")).is_none());
    assert!(decode_envelope(&good.replace("codepoint", "byte")).is_none());
    assert!(decode_envelope(&good.replace("Annotation", "Note")).is_none());
    assert!(decode_envelope(&good.replace("\"x\"", "\"x")).is_none());
    assert!(decode_envelope(&good.replace("\"x\"", "\"\\x\"")).is_none());
    assert!(decode_envelope(&good.replace("\"x\"", "\"\\u0041\"")).is_none());
    assert!(decode_envelope(&good.replace("\"x\"", "\"\u{1}\"")).is_none());
    assert!(decode_envelope(&good.replace("\"end\":1", "\"end\":99999999999999999999")).is_none());
}

#[test]
fn escapes_written_by_others_in_this_form_are_read() {
    let good = encode_envelope(&envelope("/posts/a", "x", None, None, 0, 1));
    let back = decode_envelope(&good.replace("\"x\"", "\"\\u000a\\u001f\"")).unwrap();
    assert_eq!(back.target.quote.exact, "\n\u{1f}");
}
