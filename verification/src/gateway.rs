//! Posting to the annotation store: what is sent, and how the answer is
//! read. Nothing here performs the request; the embedding sends the
//! [`PostRequest`] and reports what came back.

use vstd::prelude::*;
use vstd::string::*;
use crate::envelope::{copy_opt, opt_chars, Envelope, EnvelopeView};
use crate::text::{decimal, lemma_decimal_injective, push_decimal};
use crate::wire::{
    envelope_json, json_opt_string, json_string, push_envelope_json, push_json_opt_string,
    push_json_string,
};

verus! {

/// Where annotations are created.
pub const CREATE_ENDPOINT: &'static str = "/api/annotations/create";

/// Where a comment thread is opened.
pub const OPEN_THREAD_ENDPOINT: &'static str = "/api/comments/open";

/// Where the annotations of an article are listed; the article's identifier
/// follows.
pub const LIST_ENDPOINT: &'static str = "/api/annotations/list?slug=";

/// The media type of every request body, and of the answer asked for.
pub const JSON_MEDIA_TYPE: &'static str = "application/json";

/// The method of every request built here.
pub const POST_METHOD: &'static str = "POST";

/// The placeholder sent in the trust-token field.
pub const TRUST_TOKEN: &'static str = "test-anything";

/// What every idempotency key starts with.
pub const KEY_PREFIX: &'static str = "id-";

/// What the description of a refused submission starts with.
pub const STATUS_WORD: &'static str = "status ";

/// Why a submission failed.
pub enum SubmitError {
    /// The server answered with a status outside 200..=299.
    Status(u16),
    /// The request could not be sent or the answer could not be read.
    Transport(String),
}

/// The mathematical content of a [`SubmitError`].
pub ghost enum SubmitErrorView {
    Status(u16),
    Transport(Seq<char>),
}

impl View for SubmitError {
    type V = SubmitErrorView;

    open spec fn view(&self) -> SubmitErrorView {
        match self {
            SubmitError::Status(code) => SubmitErrorView::Status(*code),
            SubmitError::Transport(what) => SubmitErrorView::Transport(what@),
        }
    }
}

impl SubmitErrorView {
    /// The error in words: `status` and the code, or the description of the
    /// failure as it was reported.
    pub open spec fn description(self) -> Seq<char> {
        match self {
            SubmitErrorView::Status(code) => STATUS_WORD@ + decimal(code as nat),
            SubmitErrorView::Transport(what) => what,
        }
    }
}

impl SubmitError {
    /// The error in words.
    pub fn describe(&self) -> (text: String)
        ensures
            text@ == self@.description(),
    {
        match self {
            SubmitError::Status(code) => {
                let mut text = String::from_str(STATUS_WORD);
                push_decimal(&mut text, *code as u64);
                text
            },
            SubmitError::Transport(what) => what.clone(),
        }
    }
}

/// Whether an HTTP status reports success.
pub open spec fn is_success(status: u16) -> bool {
    200 <= status <= 299
}

/// What an answer means for the submission: `response` is the status of the
/// answer, or the description of the failure where no answer was had.
pub open spec fn outcome_of(response: Result<u16, Seq<char>>) -> Result<(), SubmitErrorView> {
    match response {
        Ok(status) => if is_success(status) {
            Ok(())
        } else {
            Err(SubmitErrorView::Status(status))
        },
        Err(what) => Err(SubmitErrorView::Transport(what)),
    }
}

/// The characters of a reported answer.
pub open spec fn response_view(response: Result<u16, String>) -> Result<u16, Seq<char>> {
    match response {
        Ok(status) => Ok(status),
        Err(what) => Err(what@),
    }
}

/// The view of an outcome.
pub open spec fn outcome_view(outcome: Result<(), SubmitError>) -> Result<(), SubmitErrorView> {
    match outcome {
        Ok(()) => Ok(()),
        Err(e) => Err(e@),
    }
}

/// Reads the answer to a request. A status in 200..=299 is success; any
/// other status is an error that carries it; a failure of the transport is
/// an error that carries its description. Nothing is retried.
pub fn settle(response: Result<u16, String>) -> (outcome: Result<(), SubmitError>)
    ensures
        outcome_view(outcome) == outcome_of(response_view(response)),
        outcome is Ok <==> (response matches Ok(status) && is_success(status)),
{
    match response {
        Ok(status) => {
            if 200 <= status && status <= 299 {
                Ok(())
            } else {
                Err(SubmitError::Status(status))
            }
        },
        Err(what) => Err(SubmitError::Transport(what)),
    }
}

/// The idempotency key of a submission made at `now_ms` milliseconds.
pub open spec fn key_of(now_ms: nat) -> Seq<char> {
    KEY_PREFIX@ + decimal(now_ms)
}

/// Makes the idempotency key of a submission from the time at which it is
/// made. Every attempt gets a key of its own: a retry is a new intent.
pub fn idempotency_key(now_ms: u64) -> (key: String)
    ensures
        key@ == key_of(now_ms as nat),
{
    let mut key = String::from_str(KEY_PREFIX);
    push_decimal(&mut key, now_ms);
    key
}

/// Submissions made at different times carry different keys.
pub proof fn lemma_keys_distinct(first_ms: nat, second_ms: nat)
    requires
        first_ms != second_ms,
    ensures
        key_of(first_ms) != key_of(second_ms),
{
    if key_of(first_ms) == key_of(second_ms) {
        let n = KEY_PREFIX@.len() as int;
        let a = key_of(first_ms);
        let b = key_of(second_ms);
        assert(a.subrange(n, a.len() as int) =~= decimal(first_ms));
        assert(b.subrange(n, b.len() as int) =~= decimal(second_ms));
        lemma_decimal_injective(first_ms, second_ms);
    }
}

/// One annotation, ready to be sent.
pub struct AnnotationRequest {
    pub post_slug: String,
    pub display_name: Option<String>,
    pub body_html: String,
    pub selectors: Envelope,
    pub quote: String,
    pub turnstile_token: String,
    pub idempotency_key: String,
}

/// The mathematical content of an [`AnnotationRequest`].
pub ghost struct AnnotationRequestView {
    pub post_slug: Seq<char>,
    pub display_name: Option<Seq<char>>,
    pub body_html: Seq<char>,
    pub selectors: EnvelopeView,
    pub quote: Seq<char>,
    pub turnstile_token: Seq<char>,
    pub idempotency_key: Seq<char>,
}

impl View for AnnotationRequest {
    type V = AnnotationRequestView;

    open spec fn view(&self) -> AnnotationRequestView {
        AnnotationRequestView {
            post_slug: self.post_slug@,
            display_name: opt_chars(self.display_name),
            body_html: self.body_html@,
            selectors: self.selectors@,
            quote: self.quote@,
            turnstile_token: self.turnstile_token@,
            idempotency_key: self.idempotency_key@,
        }
    }
}

/// A display name as it is sent: an empty one is left out.
pub open spec fn sent_name(display_name: Seq<char>) -> Option<Seq<char>> {
    if display_name.len() == 0 {
        None
    } else {
        Some(display_name)
    }
}

/// The request that submits `quote`, anchored by `envelope`, with the
/// comment `body_html`, at `now_ms`.
pub open spec fn request_for(
    slug: Seq<char>,
    envelope: EnvelopeView,
    quote: Seq<char>,
    display_name: Option<Seq<char>>,
    body_html: Seq<char>,
    now_ms: nat,
) -> AnnotationRequestView {
    AnnotationRequestView {
        post_slug: slug,
        display_name,
        body_html,
        selectors: envelope,
        quote,
        turnstile_token: TRUST_TOKEN@,
        idempotency_key: key_of(now_ms),
    }
}

/// The body of the request that creates an annotation.
pub open spec fn request_json(r: AnnotationRequestView) -> Seq<char> {
    "{\"post_slug\":"@ + json_string(r.post_slug) + ",\"display_name\":"@ + json_opt_string(
        r.display_name,
    ) + ",\"body_html\":"@ + json_string(r.body_html) + ",\"selectors\":"@ + envelope_json(
        r.selectors,
    ) + ",\"quote\":"@ + json_string(r.quote) + ",\"turnstile_token\":"@ + json_string(
        r.turnstile_token,
    ) + ",\"idempotency_key\":"@ + json_string(r.idempotency_key) + "}"@
}

/// The body of the request that opens the comment thread of an article.
pub open spec fn thread_json(slug: Seq<char>) -> Seq<char> {
    "{\"post_slug\":"@ + json_string(slug) + "}"@
}

/// A request for the embedding to send with the method `POST`.
pub struct PostRequest {
    pub url: String,
    pub content_type: String,
    /// The media type asked of the answer, where one is asked.
    pub accept: Option<String>,
    pub body: String,
}

/// The mathematical content of a [`PostRequest`].
pub ghost struct PostRequestView {
    pub url: Seq<char>,
    pub content_type: Seq<char>,
    pub accept: Option<Seq<char>>,
    pub body: Seq<char>,
}

impl View for PostRequest {
    type V = PostRequestView;

    open spec fn view(&self) -> PostRequestView {
        PostRequestView {
            url: self.url@,
            content_type: self.content_type@,
            accept: opt_chars(self.accept),
            body: self.body@,
        }
    }
}

/// Puts an annotation together for sending. The key is made afresh from
/// `now_ms`, and the trust token is the fixed placeholder.
pub fn annotation_request(
    slug: &str,
    envelope: &Envelope,
    quote: &str,
    display_name: &Option<String>,
    body_html: &str,
    now_ms: u64,
) -> (r: AnnotationRequest)
    ensures
        r@ == request_for(
            slug@,
            envelope@,
            quote@,
            opt_chars(*display_name),
            body_html@,
            now_ms as nat,
        ),
{
    AnnotationRequest {
        post_slug: slug.to_owned(),
        display_name: copy_opt(display_name),
        body_html: body_html.to_owned(),
        selectors: envelope.duplicate(),
        quote: quote.to_owned(),
        turnstile_token: String::from_str(TRUST_TOKEN),
        idempotency_key: idempotency_key(now_ms),
    }
}

/// Writes the body of the request that creates `r`.
pub fn annotation_body(r: &AnnotationRequest) -> (body: String)
    ensures
        body@ == request_json(r@),
{
    let mut out = String::from_str("{\"post_slug\":");
    push_json_string(&mut out, r.post_slug.as_str());
    out.append(",\"display_name\":");
    push_json_opt_string(&mut out, &r.display_name);
    out.append(",\"body_html\":");
    push_json_string(&mut out, r.body_html.as_str());
    out.append(",\"selectors\":");
    push_envelope_json(&mut out, &r.selectors);
    out.append(",\"quote\":");
    push_json_string(&mut out, r.quote.as_str());
    out.append(",\"turnstile_token\":");
    push_json_string(&mut out, r.turnstile_token.as_str());
    out.append(",\"idempotency_key\":");
    push_json_string(&mut out, r.idempotency_key.as_str());
    out.append("}");
    out
}

/// The request that creates the annotation `r`: a JSON body for the create
/// endpoint, with a JSON answer asked for.
pub fn post_annotation(r: &AnnotationRequest) -> (post: PostRequest)
    ensures
        post@ == (PostRequestView {
            url: CREATE_ENDPOINT@,
            content_type: JSON_MEDIA_TYPE@,
            accept: Some(JSON_MEDIA_TYPE@),
            body: request_json(r@),
        }),
{
    PostRequest {
        url: String::from_str(CREATE_ENDPOINT),
        content_type: String::from_str(JSON_MEDIA_TYPE),
        accept: Some(String::from_str(JSON_MEDIA_TYPE)),
        body: annotation_body(r),
    }
}

/// The request that opens the comment thread of an article. Where the page
/// names no article there is nothing to send, and the thread counts as
/// opened.
pub fn open_comment_thread(slug: Option<&str>) -> (post: Option<PostRequest>)
    ensures
        slug is None <==> post is None,
        slug is Some ==> post->0@ == (PostRequestView {
            url: OPEN_THREAD_ENDPOINT@,
            content_type: JSON_MEDIA_TYPE@,
            accept: None,
            body: thread_json(slug->0@),
        }),
{
    match slug {
        Some(name) => {
            let mut body = String::from_str("{\"post_slug\":");
            push_json_string(&mut body, name);
            body.append("}");
            Some(
                PostRequest {
                    url: String::from_str(OPEN_THREAD_ENDPOINT),
                    content_type: String::from_str(JSON_MEDIA_TYPE),
                    accept: None,
                    body,
                },
            )
        },
        None => None,
    }
}

/// The address from which the annotations of the article `slug` are listed.
pub fn list_url(slug: &str) -> (url: String)
    ensures
        url@ == LIST_ENDPOINT@ + slug@,
{
    let mut url = String::from_str(LIST_ENDPOINT);
    url.append(slug);
    url
}

} // verus!
