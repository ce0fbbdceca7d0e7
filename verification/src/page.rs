//! The page as a whole: what each event of the reader does to the popover,
//! the compose panel, the side panel, the toast and the comment thread, and
//! what the embedding has to do in the browser afterwards.

use vstd::prelude::*;
use vstd::string::*;
use crate::composer::{opt_str, Composer, ComposerView};
use crate::envelope::{
    build_envelope, envelope_for, locate_selection, opt_chars, selection_in, SelectionView,
};
use crate::composer::ERROR_PREFIX;
use crate::gateway::{
    is_success, list_url, open_comment_thread, outcome_of, post_annotation, request_json,
    response_view, settle, thread_json, PostRequest, PostRequestView, CREATE_ENDPOINT,
    JSON_MEDIA_TYPE, LIST_ENDPOINT, OPEN_THREAD_ENDPOINT, STATUS_WORD,
};
use crate::text::{decimal, holds_at, lemma_decimal_reads_back};
use crate::link::{deep_link, deep_link_of};
use crate::popover::{Popover, PopoverView};
use crate::toast::{HideTimer, Toast, ToastView, TOAST_DELAY_MS};

verus! {

/// The class of the marker put around a span that the reader is about to
/// annotate.
pub const OWN_MARK_CLASS: &'static str = "anno anno--own";

/// What the toast says after a deep link was copied.
pub const LINK_COPIED: &'static str = "Link copied";

/// What the embedding does to the live selection after an event.
#[derive(Clone, Copy, Debug, PartialEq, Eq, Structural)]
pub enum SelectionEffect {
    /// Leave the selection alone.
    Keep,
    /// Collapse the selection to its end.
    Collapse,
    /// Wrap the selected range in a marker of the class
    /// [`OWN_MARK_CLASS`], then collapse the selection to its end.
    MarkAndCollapse,
}

/// A deep link for the clipboard, and the timer of the toast that
/// announces it.
pub struct CopiedLink {
    pub url: String,
    pub timer: HideTimer,
}

/// The comment thread under the article.
pub struct Comments {
    pub open: bool,
    pub draft_created: bool,
    pub input: String,
}

/// The mathematical content of [`Comments`].
pub ghost struct CommentsView {
    pub open: bool,
    pub draft_created: bool,
    pub input: Seq<char>,
}

impl View for Comments {
    type V = CommentsView;

    open spec fn view(&self) -> CommentsView {
        CommentsView { open: self.open, draft_created: self.draft_created, input: self.input@ }
    }
}

/// The state of one page view. `P` is whatever the embedding uses for a
/// screen position.
pub struct Page<P> {
    /// The article that the page shows, where it shows one.
    pub slug: Option<String>,
    pub popover: Popover<P>,
    pub composer: Composer,
    pub sidebar_open: bool,
    pub toast: Toast,
    pub comments: Comments,
    /// Whether the listener for selections has been attached.
    pub listening: bool,
}

/// The mathematical content of a [`Page`].
pub ghost struct PageView<P> {
    pub slug: Option<Seq<char>>,
    pub popover: PopoverView<P>,
    pub composer: ComposerView,
    pub sidebar_open: bool,
    pub toast: ToastView,
    pub comments: CommentsView,
    pub listening: bool,
}

impl<P> View for Page<P> {
    type V = PageView<P>;

    open spec fn view(&self) -> PageView<P> {
        PageView {
            slug: opt_chars(self.slug),
            popover: self.popover@,
            composer: self.composer@,
            sidebar_open: self.sidebar_open,
            toast: self.toast@,
            comments: self.comments@,
            listening: self.listening,
        }
    }
}

/// The selection that a pointer release leaves to act on: the release was
/// inside the content root, the browser holds a selection, the page has
/// canonical text, and the selection can be located in it.
pub open spec fn live_selection(
    inside_content: bool,
    selected: Option<Seq<char>>,
    canonical: Option<Seq<char>>,
) -> Option<SelectionView> {
    if inside_content && selected is Some && canonical is Some {
        selection_in(canonical->0, selected->0)
    } else {
        None
    }
}

impl<P> PageView<P> {
    /// A fresh page view of the article `slug`.
    pub open spec fn fresh(slug: Option<Seq<char>>) -> PageView<P> {
        PageView {
            slug,
            popover: PopoverView::Hidden,
            composer: ComposerView::closed(),
            sidebar_open: false,
            toast: ToastView { message: Seq::<char>::empty(), visible: false, generation: 0 },
            comments: CommentsView {
                open: false,
                draft_created: false,
                input: Seq::<char>::empty(),
            },
            listening: false,
        }
    }

    /// After the pointer was released. Where that leaves a selection to act
    /// on, the popover reacts to it, and, on a page that shows an article,
    /// the compose panel takes its envelope and quote. Otherwise nothing
    /// changes.
    pub open spec fn released(
        self,
        inside_content: bool,
        selected: Option<Seq<char>>,
        canonical: Option<Seq<char>>,
        rect: Option<P>,
    ) -> PageView<P> {
        match live_selection(inside_content, selected, canonical) {
            Some(sel) => PageView {
                popover: self.popover.selected(sel.exact, rect),
                composer: match self.slug {
                    Some(slug) => self.composer.anchored(
                        envelope_for(slug, canonical->0, sel.exact, sel.start, sel.end),
                        sel.exact,
                    ),
                    None => self.composer,
                },
                ..self
            },
            None => self,
        }
    }

    /// After "Add comment": the popover is gone, the compose panel and the
    /// side panel are open. Without a popover on screen nothing changes.
    pub open spec fn comment_added(self) -> PageView<P> {
        if self.popover is Shown {
            PageView {
                popover: PopoverView::Hidden,
                composer: self.composer.opened(),
                sidebar_open: true,
                ..self
            }
        } else {
            self
        }
    }

    /// The deep link that "Copy link" puts on the clipboard, where there is
    /// a selection to act on and the page has an address.
    pub open spec fn link_to_copy(
        selected: Option<Seq<char>>,
        canonical: Option<Seq<char>>,
        href: Option<Seq<char>>,
    ) -> Option<Seq<char>> {
        match (live_selection(true, selected, canonical), href) {
            (Some(sel), Some(address)) => Some(deep_link_of(address, sel.exact)),
            _ => None,
        }
    }

    /// After "Copy link": the toast announces the copy, if a link was made.
    pub open spec fn link_copied(self, link: Option<Seq<char>>) -> PageView<P> {
        if link is Some {
            PageView { toast: self.toast.shown(LINK_COPIED@), ..self }
        } else {
            self
        }
    }

    /// After the answer to a submission came in.
    pub open spec fn submission_settled(self, response: Result<u16, Seq<char>>) -> PageView<P> {
        match outcome_of(response) {
            Ok(()) => PageView { composer: self.composer.succeeded(), ..self },
            Err(e) => PageView { composer: self.composer.failed(e), ..self },
        }
    }

    /// After "Open comments" on a page whose thread is closed: the thread
    /// is open, and on a page that shows no article it counts as created.
    pub open spec fn comments_opened(self) -> PageView<P> {
        if self.comments.open {
            self
        } else {
            PageView {
                comments: CommentsView {
                    open: true,
                    draft_created: self.comments.draft_created || self.slug is None,
                    ..self.comments
                },
                ..self
            }
        }
    }

    /// After the answer to the opening of the thread came in.
    pub open spec fn thread_settled(self, response: Result<u16, Seq<char>>) -> PageView<P> {
        if outcome_of(response) is Ok {
            PageView { comments: CommentsView { draft_created: true, ..self.comments }, ..self }
        } else {
            self
        }
    }
}

/// The content of an optional request.
pub open spec fn opt_post(o: Option<PostRequest>) -> Option<PostRequestView> {
    match o {
        Some(p) => Some(p@),
        None => None,
    }
}

impl<P> Page<P> {
    /// A fresh page view of the article `slug`.
    pub fn new(slug: Option<String>) -> (page: Page<P>)
        ensures
            page@ == PageView::<P>::fresh(opt_chars(slug)),
    {
        Page {
            slug,
            popover: Popover::new(),
            composer: Composer::new(),
            sidebar_open: false,
            toast: Toast::new(),
            comments: Comments { open: false, draft_created: false, input: String::new() },
            listening: false,
        }
    }

    /// Whether the listener for selections has to be attached now. It is
    /// attached once in the life of a page: every later call answers no.
    pub fn attach_listener(&mut self) -> (attach: bool)
        ensures
            attach == !old(self)@.listening,
            final(self)@ == (PageView { listening: true, ..old(self)@ }),
    {
        let attach = !self.listening;
        self.listening = true;
        attach
    }

    /// The address from which the annotations of the page are fetched; a
    /// page that shows no article has none, and its list is empty.
    pub fn list_request(&self) -> (url: Option<String>)
        ensures
            opt_chars(url) == (match self@.slug {
                Some(slug) => Some(LIST_ENDPOINT@ + slug),
                None => None,
            }),
    {
        match &self.slug {
            Some(slug) => Some(list_url(slug.as_str())),
            None => None,
        }
    }

    /// The pointer was released. `inside_content` says whether the target
    /// lies in the content root, `selected` is the text of the browser's
    /// selection if it holds a range, `canonical` the canonical text if
    /// there is a content root, and `rect` the anchor taken from the first
    /// client rectangle of the selection if it has one.
    pub fn pointer_released(
        &mut self,
        inside_content: bool,
        selected: Option<&str>,
        canonical: Option<&str>,
        rect: Option<P>,
    )
        ensures
            final(self)@ == old(self)@.released(
                inside_content,
                opt_str(selected),
                opt_str(canonical),
                rect,
            ),
            rect is None ==> final(self)@.popover == old(self)@.popover,
            live_selection(inside_content, opt_str(selected), opt_str(canonical)) is Some && old(
                self,
            )@.slug is Some ==> final(self)@.composer.envelope->0.anchored_in(canonical->0@),
    {
        if !inside_content {
            return ;
        }
        match (selected, canonical) {
            (Some(text), Some(plain)) => {
                match locate_selection(plain, text) {
                    Some(sel) => {
                        self.popover.select(sel.exact.as_str(), rect);
                        match &self.slug {
                            Some(slug) => {
                                let envelope = build_envelope(
                                    slug.as_str(),
                                    plain,
                                    sel.exact.as_str(),
                                    sel.start,
                                    sel.end,
                                );
                                self.composer.anchor(envelope, sel.exact.as_str());
                            },
                            None => {},
                        }
                    },
                    None => {},
                }
            },
            _ => {},
        }
    }

    /// "Add comment" on the popover. The span is marked before anything is
    /// sent: the marker stays whatever becomes of the comment.
    pub fn add_comment(&mut self) -> (effect: SelectionEffect)
        ensures
            final(self)@ == old(self)@.comment_added(),
            effect == (if old(self)@.popover is Shown {
                SelectionEffect::MarkAndCollapse
            } else {
                SelectionEffect::Keep
            }),
    {
        if self.popover.is_visible() {
            self.popover.dismiss();
            self.composer.open_draft();
            self.sidebar_open = true;
            SelectionEffect::MarkAndCollapse
        } else {
            SelectionEffect::Keep
        }
    }

    /// "Copy link" on the popover. The selection is read again, as it is
    /// now. Where it can be located and the page has an address, the link
    /// is returned for the clipboard and the toast announces it; where not,
    /// nothing happens and nothing is said.
    pub fn copy_link(
        &mut self,
        selected: Option<&str>,
        canonical: Option<&str>,
        href: Option<&str>,
    ) -> (copied: Option<CopiedLink>)
        ensures
            (match copied {
                Some(c) => Some(c.url@),
                None => None,
            }) == PageView::<P>::link_to_copy(opt_str(selected), opt_str(canonical), opt_str(href)),
            final(self)@ == old(self)@.link_copied(
                PageView::<P>::link_to_copy(opt_str(selected), opt_str(canonical), opt_str(href)),
            ),
            copied matches Some(c) ==> c.timer.delay_ms == TOAST_DELAY_MS && c.timer.generation
                == final(self)@.toast.generation,
    {
        match (selected, canonical, href) {
            (Some(text), Some(plain), Some(address)) => {
                match locate_selection(plain, text) {
                    Some(sel) => {
                        let url = deep_link(address, sel.exact.as_str());
                        let timer = self.toast.show(LINK_COPIED);
                        Some(CopiedLink { url, timer })
                    },
                    None => None,
                }
            },
            _ => None,
        }
    }

    /// "Cancel" on the popover: the popover goes, the selection is
    /// collapsed, and nothing else is touched.
    pub fn cancel_popover(&mut self) -> (effect: SelectionEffect)
        ensures
            final(self)@ == (PageView { popover: PopoverView::Hidden, ..old(self)@ }),
            effect == SelectionEffect::Collapse,
    {
        self.popover.dismiss();
        SelectionEffect::Collapse
    }

    /// The timer of a toast ran out.
    pub fn toast_timer_fired(&mut self, generation: u64)
        ensures
            final(self)@ == (PageView {
                toast: old(self)@.toast.fired(generation as nat),
                ..old(self)@
            }),
    {
        self.toast.timer_fired(generation);
    }

    /// The button in the header: opens the side panel, or closes it.
    pub fn toggle_sidebar(&mut self)
        ensures
            final(self)@ == (PageView { sidebar_open: !old(self)@.sidebar_open, ..old(self)@ }),
    {
        self.sidebar_open = !self.sidebar_open;
    }

    /// A click beside the side panel closes it.
    pub fn close_sidebar(&mut self)
        ensures
            final(self)@ == (PageView { sidebar_open: false, ..old(self)@ }),
    {
        self.sidebar_open = false;
    }

    /// The reader submits the compose panel at `now_ms`. The request is
    /// returned for sending; the panel changes only when the answer is in.
    pub fn submit(&self, now_ms: u64) -> (post: Option<PostRequest>)
        ensures
            post is Some <==> self@.composer.can_submit() && self@.slug is Some,
            post matches Some(p) ==> p@ == (PostRequestView {
                url: CREATE_ENDPOINT@,
                content_type: JSON_MEDIA_TYPE@,
                accept: Some(JSON_MEDIA_TYPE@),
                body: request_json(self@.composer.submission(self@.slug, now_ms as nat)->0),
            }),
    {
        let slug = match &self.slug {
            Some(s) => Some(s.as_str()),
            None => None,
        };
        match self.composer.submit(slug, now_ms) {
            Some(request) => Some(post_annotation(&request)),
            None => None,
        }
    }

    /// The answer to a submission is in: `response` is its status, or the
    /// description of the failure where no answer was had. Returns whether
    /// the list of annotations has to be fetched again, which is so after
    /// every accepted submission.
    pub fn submission_settled(&mut self, response: Result<u16, String>) -> (refetch: bool)
        ensures
            final(self)@ == old(self)@.submission_settled(response_view(response)),
            refetch == (outcome_of(response_view(response)) is Ok),
    {
        match settle(response) {
            Ok(()) => {
                self.composer.submit_succeeded();
                true
            },
            Err(e) => {
                self.composer.submit_failed(&e);
                false
            },
        }
    }

    /// "Cancel" on the compose panel. The marker in the article stays.
    pub fn cancel_composer(&mut self)
        ensures
            final(self)@ == (PageView { composer: old(self)@.composer.cancelled(), ..old(self)@ }),
    {
        self.composer.cancel();
    }

    /// "Open comments". The thread is opened once in the life of a page:
    /// the first call returns the request to send, if the page shows an
    /// article, and every later call returns nothing.
    pub fn open_comments(&mut self) -> (post: Option<PostRequest>)
        ensures
            final(self)@ == old(self)@.comments_opened(),
            post is Some <==> !old(self)@.comments.open && old(self)@.slug is Some,
            post matches Some(p) ==> p@ == (PostRequestView {
                url: OPEN_THREAD_ENDPOINT@,
                content_type: JSON_MEDIA_TYPE@,
                accept: None,
                body: thread_json(old(self)@.slug->0),
            }),
    {
        if self.comments.open {
            return None;
        }
        self.comments.open = true;
        let slug = match &self.slug {
            Some(s) => Some(s.as_str()),
            None => None,
        };
        let post = open_comment_thread(slug);
        if post.is_none() {
            self.comments.draft_created = true;
        }
        post
    }

    /// The answer to the opening of the thread is in.
    pub fn thread_settled(&mut self, response: Result<u16, String>)
        ensures
            final(self)@ == old(self)@.thread_settled(response_view(response)),
    {
        match settle(response) {
            Ok(()) => {
                self.comments.draft_created = true;
            },
            Err(_) => {},
        }
    }

    /// The reader typed in the field of the comment thread.
    pub fn edit_comment(&mut self, value: &str)
        ensures
            final(self)@ == (PageView {
                comments: CommentsView { input: value@, ..old(self)@.comments },
                ..old(self)@
            }),
    {
        self.comments.input = value.to_owned();
    }
}

/// A submission that the store rejects costs the reader nothing: the
/// compose panel is open if it was open and keeps the name and the comment
/// as they were typed, the rest of the page is untouched, and the status
/// line is not empty and ends with the status that the store answered.
pub proof fn lemma_rejection_keeps_draft<P>(before: Page<P>, status: u16)
    requires
        !is_success(status),
    ensures
        ({
            let page = before@;
            let after = page.submission_settled(Ok(status));
            let line = after.composer.status_message;
            &&& after.composer.open == page.composer.open
            &&& after.composer.display_name == page.composer.display_name
            &&& after.composer.body_html == page.composer.body_html
            &&& after.composer.quote == page.composer.quote
            &&& after.composer.envelope == page.composer.envelope
            &&& after == (PageView { composer: after.composer, ..page })
            &&& line.len() > 0
            &&& line == ERROR_PREFIX@ + STATUS_WORD@ + decimal(status as nat)
            &&& holds_at(line, line.len() - decimal(status as nat).len(), decimal(status as nat))
        }),
{
    let after = before@.submission_settled(Ok(status));
    let line = after.composer.status_message;
    let numeral = decimal(status as nat);
    lemma_decimal_reads_back(status as nat);
    assert(line =~= ERROR_PREFIX@ + STATUS_WORD@ + numeral);
    assert forall|j: int| 0 <= j < numeral.len() implies line[line.len() - numeral.len() + j]
        == numeral[j] by {}
}

} // verus!
