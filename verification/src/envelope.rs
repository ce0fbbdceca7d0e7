//! Durable anchors for a span of canonical text: a quote selector (the exact
//! text with a little surrounding context) paired with a position selector
//! (codepoint offsets).

use vstd::prelude::*;
use vstd::string::*;
use crate::text::{chars_of, string_of};

verus! {

/// The discriminator carried by every envelope.
pub const ENVELOPE_TYPE: &'static str = "Annotation";

/// The unit in which a position selector counts.
pub const POSITION_UNIT: &'static str = "codepoint";

/// The longest context kept on either side of a quote, in codepoints.
pub const CONTEXT_WINDOW: usize = 20;

/// The path prefix that turns an article identifier into a target source.
pub const SOURCE_PREFIX: &'static str = "/posts/";

/// The selected text verbatim, with the canonical text around it.
pub struct TextQuoteSelector {
    pub exact: String,
    pub prefix: Option<String>,
    pub suffix: Option<String>,
}

/// Codepoint offsets of the selection into the canonical text.
#[derive(Clone, Copy, Debug, PartialEq, Eq, Structural)]
pub struct TextPositionSelector {
    pub start: usize,
    pub end: usize,
}

/// What an annotation points at: the article and the two selectors, in
/// the order in which they are written out.
pub struct Target {
    pub source: String,
    pub quote: TextQuoteSelector,
    pub position: TextPositionSelector,
}

/// The description of an annotation's anchor point.
pub struct Envelope {
    pub target: Target,
}

/// A non-empty selection located in the canonical text.
pub struct Selection {
    pub exact: String,
    pub start: usize,
    pub end: usize,
}

/// The mathematical content of an [`Envelope`].
pub ghost struct EnvelopeView {
    pub source: Seq<char>,
    pub exact: Seq<char>,
    pub prefix: Option<Seq<char>>,
    pub suffix: Option<Seq<char>>,
    pub start: nat,
    pub end: nat,
}

/// The mathematical content of a [`Selection`].
pub ghost struct SelectionView {
    pub exact: Seq<char>,
    pub start: nat,
    pub end: nat,
}

/// The characters of an optional string.
pub open spec fn opt_chars(o: Option<String>) -> Option<Seq<char>> {
    match o {
        Some(s) => Some(s@),
        None => None,
    }
}

impl View for Envelope {
    type V = EnvelopeView;

    open spec fn view(&self) -> EnvelopeView {
        EnvelopeView {
            source: self.target.source@,
            exact: self.target.quote.exact@,
            prefix: opt_chars(self.target.quote.prefix),
            suffix: opt_chars(self.target.quote.suffix),
            start: self.target.position.start as nat,
            end: self.target.position.end as nat,
        }
    }
}

impl View for Selection {
    type V = SelectionView;

    open spec fn view(&self) -> SelectionView {
        SelectionView { exact: self.exact@, start: self.start as nat, end: self.end as nat }
    }
}

/// `exact` is the non-empty span `text[start..end]`.
pub open spec fn anchors(text: Seq<char>, exact: Seq<char>, start: int, end: int) -> bool {
    &&& 0 <= start < end <= text.len()
    &&& text.subrange(start, end) == exact
}

/// `pat` occurs in `text` at codepoint offset `at`.
pub open spec fn occurs_at(text: Seq<char>, pat: Seq<char>, at: int) -> bool {
    &&& 0 <= at
    &&& at + pat.len() <= text.len()
    &&& text.subrange(at, at + pat.len()) == pat
}

/// `at` is the offset of the first occurrence of `pat` in `text`.
pub open spec fn first_occurrence(text: Seq<char>, pat: Seq<char>, at: int) -> bool {
    &&& occurs_at(text, pat, at)
    &&& forall|j: int| 0 <= j < at ==> !occurs_at(text, pat, j)
}

/// The offset of the first occurrence of `pat` in `text`, where it occurs.
pub open spec fn first_offset(text: Seq<char>, pat: Seq<char>) -> int {
    choose|at: int| first_occurrence(text, pat, at)
}

/// Where a selection of `selected` lies in `text`: at the first occurrence
/// of its text. An empty selection lies nowhere, nor one whose text the
/// canonical text does not hold.
pub open spec fn selection_in(text: Seq<char>, selected: Seq<char>) -> Option<SelectionView> {
    if selected.len() > 0 && exists|i: int| occurs_at(text, selected, i) {
        Some(
            SelectionView {
                exact: selected,
                start: first_offset(text, selected) as nat,
                end: (first_offset(text, selected) + selected.len()) as nat,
            },
        )
    } else {
        None
    }
}

/// The content of an optional selection.
pub open spec fn opt_selection(o: Option<Selection>) -> Option<SelectionView> {
    match o {
        Some(s) => Some(s@),
        None => None,
    }
}

/// `text[from..to]`, with both ends clipped to the text.
pub open spec fn clipped(text: Seq<char>, from: int, to: int) -> Seq<char> {
    let len = text.len() as int;
    let a = if from < 0 { 0 } else if from > len { len } else { from };
    let b = if to < a { a } else if to > len { len } else { to };
    text.subrange(a, b)
}

/// Up to twenty codepoints immediately before `start`; absent at the very
/// beginning of the text.
pub open spec fn context_before(text: Seq<char>, start: int) -> Option<Seq<char>> {
    if start > 0 {
        Some(clipped(text, start - CONTEXT_WINDOW as int, start))
    } else {
        None
    }
}

/// Up to twenty codepoints immediately after `end`; absent at the very end
/// of the text.
pub open spec fn context_after(text: Seq<char>, end: int) -> Option<Seq<char>> {
    if end < text.len() {
        Some(clipped(text, end, end + CONTEXT_WINDOW as int))
    } else {
        None
    }
}

/// The target source of the article named `slug`.
pub open spec fn source_of(slug: Seq<char>) -> Seq<char> {
    SOURCE_PREFIX@ + slug
}

/// The envelope that describes the span `start..end` of `text`.
pub open spec fn envelope_for(
    slug: Seq<char>,
    text: Seq<char>,
    exact: Seq<char>,
    start: nat,
    end: nat,
) -> EnvelopeView {
    EnvelopeView {
        source: source_of(slug),
        exact,
        prefix: context_before(text, start as int),
        suffix: context_after(text, end as int),
        start,
        end,
    }
}

impl EnvelopeView {
    /// The envelope's invariant against the text it was built from.
    pub open spec fn anchored_in(self, text: Seq<char>) -> bool {
        &&& anchors(text, self.exact, self.start as int, self.end as int)
        &&& self.prefix == context_before(text, self.start as int)
        &&& self.suffix == context_after(text, self.end as int)
    }
}

impl Envelope {
    /// The fixed discriminator, `"Annotation"`.
    pub fn kind(&self) -> (k: &'static str)
        ensures
            k@ == ENVELOPE_TYPE@,
    {
        ENVELOPE_TYPE
    }

    /// The unit of the position selector, `"codepoint"`.
    pub fn unit(&self) -> (u: &'static str)
        ensures
            u@ == POSITION_UNIT@,
    {
        POSITION_UNIT
    }

    /// A copy of this envelope.
    pub fn duplicate(&self) -> (e: Envelope)
        ensures
            e@ == self@,
    {
        Envelope {
            target: Target {
                source: self.target.source.clone(),
                quote: TextQuoteSelector {
                    exact: self.target.quote.exact.clone(),
                    prefix: copy_opt(&self.target.quote.prefix),
                    suffix: copy_opt(&self.target.quote.suffix),
                },
                position: self.target.position,
            },
        }
    }
}

/// A copy of an optional string.
pub fn copy_opt(o: &Option<String>) -> (r: Option<String>)
    ensures
        opt_chars(r) == opt_chars(*o),
{
    match o {
        Some(s) => Some(s.clone()),
        None => None,
    }
}

/// Builds the envelope for the span `start..end` of `canonical`, whose text
/// is `exact`, in the article named `slug`.
///
/// The context windows are cut in codepoints. The function accepts any
/// offsets; for a non-empty selection that lies in the text the result
/// satisfies the envelope invariant.
pub fn build_envelope(slug: &str, canonical: &str, exact: &str, start: usize, end: usize) -> (e:
    Envelope)
    ensures
        e@ == envelope_for(slug@, canonical@, exact@, start as nat, end as nat),
        anchors(canonical@, exact@, start as int, end as int) ==> e@.anchored_in(canonical@),
        e@.prefix is Some <==> start > 0,
        e@.suffix is Some <==> end < canonical@.len(),
        e@.prefix matches Some(p) ==> p.len() <= CONTEXT_WINDOW,
        e@.suffix matches Some(s) ==> s.len() <= CONTEXT_WINDOW,
{
    let text = chars_of(canonical);
    let len = text.len();
    let prefix = if start > 0 {
        let to = if start > len { len } else { start };
        let from = if start < CONTEXT_WINDOW {
            0
        } else if start - CONTEXT_WINDOW > len {
            len
        } else {
            start - CONTEXT_WINDOW
        };
        Some(string_of(&text, from, to))
    } else {
        None
    };
    let suffix = if end < len {
        let to = if len - end > CONTEXT_WINDOW { end + CONTEXT_WINDOW } else { len };
        Some(string_of(&text, end, to))
    } else {
        None
    };
    let mut source = String::from_str(SOURCE_PREFIX);
    source.append(slug);
    Envelope {
        target: Target {
            source,
            quote: TextQuoteSelector { exact: exact.to_owned(), prefix, suffix },
            position: TextPositionSelector { start, end },
        },
    }
}

/// Whether `pat` occurs in `text` at offset `at`.
fn matches_at(text: &Vec<char>, pat: &Vec<char>, at: usize) -> (b: bool)
    requires
        at + pat.len() <= text.len(),
    ensures
        b == occurs_at(text@, pat@, at as int),
{
    let mut k: usize = 0;
    while k < pat.len()
        invariant
            k <= pat.len(),
            at + pat.len() <= text.len(),
            forall|i: int| 0 <= i < k ==> text@[at + i] == pat@[i],
        decreases pat.len() - k,
    {
        if text[at + k] != pat[k] {
            proof {
                assert(text@.subrange(at as int, at + pat@.len())[k as int] == text@[at + k]);
            }
            return false;
        }
        k += 1;
    }
    proof {
        assert(text@.subrange(at as int, at + pat@.len()) =~= pat@);
    }
    true
}

/// Locates the selected text in the canonical text.
///
/// An empty selection is rejected. Otherwise the selection is placed at the
/// first occurrence of its text; where the text occurs nowhere, nothing is
/// returned. Offsets count codepoints.
pub fn locate_selection(canonical: &str, selected: &str) -> (r: Option<Selection>)
    ensures
        opt_selection(r) == selection_in(canonical@, selected@),
        r is Some <==> selected@.len() > 0 && exists|i: int| occurs_at(canonical@, selected@, i),
        r matches Some(sel) ==> {
            &&& sel@.exact == selected@
            &&& first_occurrence(canonical@, selected@, sel@.start as int)
            &&& sel@.end == sel@.start + selected@.len()
            &&& anchors(canonical@, sel@.exact, sel@.start as int, sel@.end as int)
        },
{
    let text = chars_of(canonical);
    let pat = chars_of(selected);
    if pat.len() == 0 || pat.len() > text.len() {
        return None;
    }
    let last: usize = text.len() - pat.len();
    let mut at: usize = 0;
    while at <= last
        invariant
            0 < pat.len() <= text.len(),
            last == text.len() - pat.len(),
            at <= last + 1,
            text@ == canonical@,
            pat@ == selected@,
            forall|j: int| 0 <= j < at ==> !occurs_at(text@, pat@, j),
        decreases last + 1 - at,
    {
        if matches_at(&text, &pat, at) {
            proof {
                assert(first_occurrence(text@, pat@, at as int));
                let chosen = first_offset(text@, pat@);
                assert(first_occurrence(text@, pat@, chosen));
                assert(chosen == at);
            }
            return Some(Selection { exact: selected.to_owned(), start: at, end: at + pat.len() });
        }
        at += 1;
    }
    None
}

/// A text that occurs somewhere has a first occurrence.
proof fn lemma_first_occurrence_exists(text: Seq<char>, pat: Seq<char>, at: int)
    requires
        occurs_at(text, pat, at),
    ensures
        exists|first: int| first_occurrence(text, pat, first),
    decreases at,
{
    if exists|j: int| 0 <= j < at && occurs_at(text, pat, j) {
        let j = choose|j: int| 0 <= j < at && occurs_at(text, pat, j);
        lemma_first_occurrence_exists(text, pat, j);
    } else {
        assert(first_occurrence(text, pat, at));
    }
}

/// The envelope of a located selection satisfies the envelope invariant:
/// its offsets delimit a non-empty span of the text, that span is the
/// quote, a prefix is present exactly when the span does not start the
/// text, a suffix exactly when it does not end it, and neither is longer
/// than twenty codepoints.
pub proof fn lemma_located_selection_is_anchored(
    slug: Seq<char>,
    text: Seq<char>,
    selected: Seq<char>,
)
    requires
        selection_in(text, selected) is Some,
    ensures
        ({
            let sel = selection_in(text, selected)->0;
            let e = envelope_for(slug, text, sel.exact, sel.start, sel.end);
            &&& e.start < e.end <= text.len()
            &&& text.subrange(e.start as int, e.end as int) == e.exact
            &&& e.exact == selected
            &&& e.anchored_in(text)
            &&& e.prefix is Some <==> e.start > 0
            &&& e.suffix is Some <==> e.end < text.len()
            &&& e.prefix matches Some(p) ==> p.len() <= CONTEXT_WINDOW && p.len() <= e.start
            &&& e.suffix matches Some(s) ==> s.len() <= CONTEXT_WINDOW && s.len() <= text.len()
                - e.end
        }),
{
    let at = first_offset(text, selected);
    let witness = choose|i: int| occurs_at(text, selected, i);
    lemma_first_occurrence_exists(text, selected, witness);
    assert(first_occurrence(text, selected, at));
}

} // verus!
