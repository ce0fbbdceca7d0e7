use annotate::envelope::build_envelope;
use annotate::gateway::{
    annotation_body, annotation_request, idempotency_key, list_url, open_comment_thread,
    post_annotation, settle, SubmitError, POST_METHOD,
};

#[test]
fn success_is_any_status_from_200_to_299() {
    for status in [200u16, 201, 204, 299] {
        assert!(settle(Ok(status)).is_ok());
    }
}

#[test]
fn other_statuses_are_errors_that_carry_the_code() {
    for status in [0u16, 100, 199, 300, 301, 400, 404, 500, 503, 65535] {
        match settle(Ok(status)) {
            Err(SubmitError::Status(code)) => assert_eq!(code, status),
            _ => panic!("status {} must be an error", status),
        }
    }
}

#[test]
fn transport_failure_carries_its_description() {
    match settle(Err("TypeError: failed to fetch".to_string())) {
        Err(SubmitError::Transport(what)) => assert_eq!(what, "TypeError: failed to fetch"),
        _ => panic!("a transport failure must be an error"),
    }
}

#[test]
fn errors_are_described_in_words() {
    assert_eq!(SubmitError::Status(500).describe(), "status 500");
    assert_eq!(SubmitError::Status(0).describe(), "status 0");
    assert_eq!(SubmitError::Status(65535).describe(), "status 65535");
    assert_eq!(SubmitError::Transport("offline".to_string()).describe(), "offline");
}

#[test]
fn idempotency_key_is_made_from_the_time() {
    assert_eq!(idempotency_key(1726000000000), "id-1726000000000");
    assert_eq!(idempotency_key(0), "id-0");
    assert_eq!(idempotency_key(7), "id-7");
    assert_eq!(idempotency_key(10), "id-10");
    assert_eq!(idempotency_key(u64::MAX), "id-18446744073709551615");
}

#[test]
fn keys_a_millisecond_apart_are_distinct() {
    let first = idempotency_key(1726000000000);
    let second = idempotency_key(1726000000001);
    assert_ne!(first, second);
    assert_ne!(idempotency_key(9), idempotency_key(10));
    assert_ne!(idempotency_key(99), idempotency_key(100));
}

#[test]
fn annotation_body_holds_every_member_in_order() {
    let envelope = build_envelope("a", "hello world", "lo w", 3, 7);
    let request = annotation_request("a", &envelope, "lo w", &None, "<p>hi</p>", 42);
    assert_eq!(request.turnstile_token, "test-anything");
    assert_eq!(request.idempotency_key, "id-42");
    assert_eq!(
        annotation_body(&request),
        "{\"post_slug\":\"a\",\"display_name\":null,\"body_html\":\"<p>hi</p>\",\"selectors\":\
         {\"type\":\"Annotation\",\"target\":{\"source\":\"/posts/a\",\"selector\":[\
         {\"type\":\"TextQuoteSelector\",\"exact\":\"lo w\",\"prefix\":\"hel\",\"suffix\":\"orld\"},\
         {\"type\":\"TextPositionSelector\",\"start\":3,\"end\":7,\"unit\":\"codepoint\"}]}},\
         \"quote\":\"lo w\",\"turnstile_token\":\"test-anything\",\"idempotency_key\":\"id-42\"}"
    );
}

#[test]
fn annotation_body_is_json_with_the_given_values() {
    let envelope = build_envelope("s", "He said \"go\" twice", "\"go\"", 8, 12);
    let name = Some("Ann \"A\"".to_string());
    let request = annotation_request("s", &envelope, "\"go\"", &name, "a\nb", 1726000000000);
    let value: serde_json::Value = serde_json::from_str(&annotation_body(&request)).unwrap();
    assert_eq!(value["post_slug"].as_str(), Some("s"));
    assert_eq!(value["display_name"].as_str(), Some("Ann \"A\""));
    assert_eq!(value["body_html"].as_str(), Some("a\nb"));
    assert_eq!(value["quote"].as_str(), Some("\"go\""));
    assert_eq!(value["turnstile_token"].as_str(), Some("test-anything"));
    assert_eq!(value["idempotency_key"].as_str(), Some("id-1726000000000"));
    assert_eq!(value["selectors"]["type"].as_str(), Some("Annotation"));
    assert_eq!(value["selectors"]["target"]["source"].as_str(), Some("/posts/s"));
    let selectors = value["selectors"]["target"]["selector"].as_array().unwrap();
    assert_eq!(selectors[0]["exact"].as_str(), Some("\"go\""));
    assert_eq!(selectors[0]["prefix"].as_str(), Some("He said "));
    assert_eq!(selectors[0]["suffix"].as_str(), Some(" twice"));
    assert_eq!(selectors[1]["start"].as_u64(), Some(8));
    assert_eq!(selectors[1]["end"].as_u64(), Some(12));
}

#[test]
fn annotation_is_posted_as_json_to_the_create_endpoint() {
    let envelope = build_envelope("a", "hello world", "lo w", 3, 7);
    let request = annotation_request("a", &envelope, "lo w", &None, "", 1);
    let post = post_annotation(&request);
    assert_eq!(POST_METHOD, "POST");
    assert_eq!(post.url, "/api/annotations/create");
    assert_eq!(post.content_type, "application/json");
    assert_eq!(post.accept.as_deref(), Some("application/json"));
    assert_eq!(post.body, annotation_body(&request));
}

#[test]
fn thread_is_opened_for_the_article_of_the_page() {
    let post = open_comment_thread(Some("my \"post\"")).unwrap();
    assert_eq!(post.url, "/api/comments/open");
    assert_eq!(post.content_type, "application/json");
    assert_eq!(post.accept, None);
    assert_eq!(post.body, "{\"post_slug\":\"my \\\"post\\\"\"}");
    assert!(open_comment_thread(None).is_none());
}

#[test]
fn annotations_are_listed_by_slug() {
    assert_eq!(list_url("hello-world"), "/api/annotations/list?slug=hello-world");
}
