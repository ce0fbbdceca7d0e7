//! The compose panel: what the reader is writing about the anchored quote,
//! and what became of the last submission.

use vstd::prelude::*;
use vstd::string::*;
use crate::envelope::{Envelope, EnvelopeView};
use crate::gateway::{
    annotation_request, request_for, sent_name, AnnotationRequest, AnnotationRequestView,
    SubmitError, SubmitErrorView,
};

verus! {

/// What the status line starts with after a failed submission.
pub const ERROR_PREFIX: &'static str = "Error: ";

/// The compose panel.
pub struct Composer {
    pub open: bool,
    pub quote: String,
    pub envelope: Option<Envelope>,
    pub display_name: String,
    pub body_html: String,
    pub status_message: String,
}

/// The mathematical content of a [`Composer`].
pub ghost struct ComposerView {
    pub open: bool,
    pub quote: Seq<char>,
    pub envelope: Option<EnvelopeView>,
    pub display_name: Seq<char>,
    pub body_html: Seq<char>,
    pub status_message: Seq<char>,
}

/// The content of an optional envelope.
pub open spec fn opt_envelope(o: Option<Envelope>) -> Option<EnvelopeView> {
    match o {
        Some(e) => Some(e@),
        None => None,
    }
}

/// The content of an optional request.
pub open spec fn opt_request(o: Option<AnnotationRequest>) -> Option<AnnotationRequestView> {
    match o {
        Some(r) => Some(r@),
        None => None,
    }
}

impl View for Composer {
    type V = ComposerView;

    open spec fn view(&self) -> ComposerView {
        ComposerView {
            open: self.open,
            quote: self.quote@,
            envelope: opt_envelope(self.envelope),
            display_name: self.display_name@,
            body_html: self.body_html@,
            status_message: self.status_message@,
        }
    }
}

impl ComposerView {
    /// A closed panel with nothing anchored and nothing written.
    pub open spec fn closed() -> ComposerView {
        ComposerView {
            open: false,
            quote: Seq::<char>::empty(),
            envelope: None,
            display_name: Seq::<char>::empty(),
            body_html: Seq::<char>::empty(),
            status_message: Seq::<char>::empty(),
        }
    }

    /// After a selection was anchored: the panel holds its envelope and
    /// quote, and the status line is cleared.
    pub open spec fn anchored(self, envelope: EnvelopeView, quote: Seq<char>) -> ComposerView {
        ComposerView {
            envelope: Some(envelope),
            quote,
            status_message: Seq::<char>::empty(),
            ..self
        }
    }

    /// After the popover handed over: the panel is open. A panel that was
    /// closed starts with empty fields; one that was open keeps its draft.
    pub open spec fn opened(self) -> ComposerView {
        if self.open {
            self
        } else {
            ComposerView {
                open: true,
                display_name: Seq::<char>::empty(),
                body_html: Seq::<char>::empty(),
                ..self
            }
        }
    }

    /// Whether the panel may submit: it is open and holds an envelope and a
    /// non-empty quote.
    pub open spec fn can_submit(self) -> bool {
        self.open && self.envelope is Some && self.quote.len() > 0
    }

    /// What a submission at `now_ms` sends for the article `slug`, if the
    /// panel may submit and the page names an article.
    pub open spec fn submission(self, slug: Option<Seq<char>>, now_ms: nat) -> Option<
        AnnotationRequestView,
    > {
        if self.can_submit() && slug is Some {
            Some(
                request_for(
                    slug->0,
                    self.envelope->0,
                    self.quote,
                    sent_name(self.display_name),
                    self.body_html,
                    now_ms,
                ),
            )
        } else {
            None
        }
    }

    /// After the store accepted the submission: the panel is closed, the
    /// draft and the status line are cleared.
    pub open spec fn succeeded(self) -> ComposerView {
        ComposerView {
            open: false,
            display_name: Seq::<char>::empty(),
            body_html: Seq::<char>::empty(),
            status_message: Seq::<char>::empty(),
            ..self
        }
    }

    /// After the submission failed: the status line says why, and nothing
    /// else changes.
    pub open spec fn failed(self, error: SubmitErrorView) -> ComposerView {
        ComposerView { status_message: ERROR_PREFIX@ + error.description(), ..self }
    }

    /// After the reader cancelled: the panel is closed, the draft and the
    /// status line are discarded.
    pub open spec fn cancelled(self) -> ComposerView {
        ComposerView {
            open: false,
            display_name: Seq::<char>::empty(),
            body_html: Seq::<char>::empty(),
            status_message: Seq::<char>::empty(),
            ..self
        }
    }
}

/// The characters of an optional string slice.
pub open spec fn opt_str(o: Option<&str>) -> Option<Seq<char>> {
    match o {
        Some(s) => Some(s@),
        None => None,
    }
}

impl Composer {
    /// A closed panel.
    pub fn new() -> (c: Composer)
        ensures
            c@ == ComposerView::closed(),
    {
        Composer {
            open: false,
            quote: String::new(),
            envelope: None,
            display_name: String::new(),
            body_html: String::new(),
            status_message: String::new(),
        }
    }

    /// Takes the envelope and quote of a fresh selection.
    pub fn anchor(&mut self, envelope: Envelope, quote: &str)
        ensures
            final(self)@ == old(self)@.anchored(envelope@, quote@),
    {
        self.envelope = Some(envelope);
        self.quote = quote.to_owned();
        self.status_message = String::new();
    }

    /// Opens the panel.
    pub fn open_draft(&mut self)
        ensures
            final(self)@ == old(self)@.opened(),
            final(self)@.open,
            !old(self)@.open ==> final(self)@.display_name.len() == 0,
            !old(self)@.open ==> final(self)@.body_html.len() == 0,
    {
        if !self.open {
            self.open = true;
            self.display_name = String::new();
            self.body_html = String::new();
        }
    }

    /// The reader typed in the name field.
    pub fn edit_display_name(&mut self, value: &str)
        ensures
            final(self)@ == (ComposerView { display_name: value@, ..old(self)@ }),
    {
        self.display_name = value.to_owned();
    }

    /// The reader typed in the comment field. Any text is taken as it is.
    pub fn edit_body_html(&mut self, value: &str)
        ensures
            final(self)@ == (ComposerView { body_html: value@, ..old(self)@ }),
    {
        self.body_html = value.to_owned();
    }

    /// Whether the panel may submit.
    pub fn can_submit(&self) -> (b: bool)
        ensures
            b == self@.can_submit(),
    {
        self.open && self.envelope.is_some() && self.quote.as_str().unicode_len() > 0
    }

    /// The request to send when the reader submits at `now_ms`. Nothing is
    /// sent unless the panel may submit and the page names an article. An
    /// empty display name is left out of the request.
    pub fn submit(&self, slug: Option<&str>, now_ms: u64) -> (r: Option<AnnotationRequest>)
        ensures
            opt_request(r) == self@.submission(opt_str(slug), now_ms as nat),
            r is Some <==> self@.can_submit() && slug is Some,
    {
        if !self.can_submit() {
            return None;
        }
        match (slug, &self.envelope) {
            (Some(name), Some(envelope)) => {
                let display_name = if self.display_name.as_str().unicode_len() == 0 {
                    None
                } else {
                    Some(self.display_name.clone())
                };
                Some(
                    annotation_request(
                        name,
                        envelope,
                        self.quote.as_str(),
                        &display_name,
                        self.body_html.as_str(),
                        now_ms,
                    ),
                )
            },
            _ => None,
        }
    }

    /// The store accepted the submission.
    pub fn submit_succeeded(&mut self)
        ensures
            final(self)@ == old(self)@.succeeded(),
    {
        self.open = false;
        self.display_name = String::new();
        self.body_html = String::new();
        self.status_message = String::new();
    }

    /// The submission failed. The panel stays as it is, with its draft, so
    /// that the reader can try again; the status line names the error.
    pub fn submit_failed(&mut self, error: &SubmitError)
        ensures
            final(self)@ == old(self)@.failed(error@),
            final(self)@.open == old(self)@.open,
            final(self)@.display_name == old(self)@.display_name,
            final(self)@.body_html == old(self)@.body_html,
            final(self)@.status_message == ERROR_PREFIX@ + error@.description(),
    {
        let mut status = String::from_str(ERROR_PREFIX);
        status.append(error.describe().as_str());
        self.status_message = status;
    }

    /// The reader cancelled.
    pub fn cancel(&mut self)
        ensures
            final(self)@ == old(self)@.cancelled(),
    {
        self.open = false;
        self.display_name = String::new();
        self.body_html = String::new();
        self.status_message = String::new();
    }
}

} // verus!
