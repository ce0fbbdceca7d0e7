use annotate::composer::Composer;
use annotate::envelope::build_envelope;
use annotate::gateway::SubmitError;

fn anchored() -> Composer {
    let mut c = Composer::new();
    c.anchor(build_envelope("a", "hello world", "lo w", 3, 7), "lo w");
    c
}

#[test]
fn new_composer_is_closed_and_empty() {
    let c = Composer::new();
    assert!(!c.open);
    assert!(c.envelope.is_none());
    assert_eq!(c.quote, "");
    assert_eq!(c.display_name, "");
    assert_eq!(c.body_html, "");
    assert_eq!(c.status_message, "");
    assert!(!c.can_submit());
}

#[test]
fn anchoring_takes_envelope_and_quote_and_clears_status() {
    let mut c = Composer::new();
    c.submit_failed(&SubmitError::Status(500));
    c.anchor(build_envelope("a", "hello world", "lo w", 3, 7), "lo w");
    assert_eq!(c.quote, "lo w");
    assert_eq!(c.envelope.as_ref().unwrap().target.position.start, 3);
    assert_eq!(c.status_message, "");
    assert!(!c.open);
}

#[test]
fn opened_composer_starts_with_empty_fields() {
    let mut c = anchored();
    c.edit_display_name("stale");
    c.edit_body_html("stale");
    c.open_draft();
    assert!(c.open);
    assert_eq!(c.display_name, "");
    assert_eq!(c.body_html, "");
}

#[test]
fn opening_an_open_composer_keeps_the_draft() {
    let mut c = anchored();
    c.open_draft();
    c.edit_display_name("Ann");
    c.edit_body_html("<b>hi</b>");
    c.open_draft();
    assert_eq!(c.display_name, "Ann");
    assert_eq!(c.body_html, "<b>hi</b>");
}

#[test]
fn submit_needs_an_open_panel_an_envelope_a_quote_and_an_article() {
    let mut c = Composer::new();
    c.open_draft();
    assert!(c.submit(Some("a"), 1).is_none());
    let mut c = anchored();
    assert!(c.submit(Some("a"), 1).is_none());
    c.open_draft();
    assert!(c.submit(None, 1).is_none());
    assert!(c.submit(Some("a"), 1).is_some());
    let mut c = Composer::new();
    c.anchor(build_envelope("a", "hello", "", 0, 0), "");
    c.open_draft();
    assert!(!c.can_submit());
    assert!(c.submit(Some("a"), 1).is_none());
}

#[test]
fn empty_display_name_is_left_out() {
    let mut c = anchored();
    c.open_draft();
    c.edit_body_html("<script>x</script>");
    let r = c.submit(Some("a"), 5).unwrap();
    assert_eq!(r.display_name, None);
    assert_eq!(r.body_html, "<script>x</script>");
    assert_eq!(r.post_slug, "a");
    assert_eq!(r.quote, "lo w");
    assert_eq!(r.idempotency_key, "id-5");
    assert_eq!(r.selectors.target.quote.exact, "lo w");
    c.edit_display_name("Ann");
    assert_eq!(c.submit(Some("a"), 6).unwrap().display_name.as_deref(), Some("Ann"));
}

#[test]
fn success_closes_and_resets() {
    let mut c = anchored();
    c.open_draft();
    c.edit_display_name("Ann");
    c.edit_body_html("hi");
    c.submit_failed(&SubmitError::Status(500));
    c.submit_succeeded();
    assert!(!c.open);
    assert_eq!(c.display_name, "");
    assert_eq!(c.body_html, "");
    assert_eq!(c.status_message, "");
    assert_eq!(c.quote, "lo w");
}

#[test]
fn failure_keeps_the_panel_open_with_its_draft() {
    let mut c = anchored();
    c.open_draft();
    c.edit_display_name("Ann");
    c.edit_body_html("hi");
    c.submit_failed(&SubmitError::Status(503));
    assert!(c.open);
    assert_eq!(c.display_name, "Ann");
    assert_eq!(c.body_html, "hi");
    assert_eq!(c.status_message, "Error: status 503");
    assert!(c.status_message.contains("503"));
    assert!(c.submit(Some("a"), 9).is_some());
    c.submit_failed(&SubmitError::Transport("JsValue(TypeError)".to_string()));
    assert_eq!(c.status_message, "Error: JsValue(TypeError)");
}

#[test]
fn cancel_closes_and_discards() {
    let mut c = anchored();
    c.open_draft();
    c.edit_display_name("Ann");
    c.edit_body_html("hi");
    c.submit_failed(&SubmitError::Status(400));
    c.cancel();
    assert!(!c.open);
    assert_eq!(c.display_name, "");
    assert_eq!(c.body_html, "");
    assert_eq!(c.status_message, "");
    assert!(c.envelope.is_some());
}
