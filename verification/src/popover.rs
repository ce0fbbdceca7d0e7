//! The floating action menu shown next to the current selection.

use vstd::prelude::*;
use crate::text::{chars_of, string_of};

verus! {

/// The longest preview shown in the popover, in codepoints.
pub const PREVIEW_LIMIT: usize = 80;

/// The marker that ends a shortened preview.
pub const ELLIPSIS: char = '\u{2026}';

/// The distance, in pixels, by which the popover is moved right of and
/// below the first client rectangle of the selection.
pub const ANCHOR_MARGIN_PX: u32 = 6;

/// The quote as the popover shows it: the first eighty codepoints and an
/// ellipsis where the quote is longer, else the quote itself.
pub open spec fn preview_of(exact: Seq<char>) -> Seq<char> {
    if exact.len() > PREVIEW_LIMIT {
        exact.take(PREVIEW_LIMIT as int).push(ELLIPSIS)
    } else {
        exact
    }
}

/// Computes the preview of a quote.
pub fn preview_text(exact: &str) -> (p: String)
    ensures
        p@ == preview_of(exact@),
        p@.len() <= PREVIEW_LIMIT + 1,
{
    let chars = chars_of(exact);
    if chars.len() > PREVIEW_LIMIT {
        let mut p = string_of(&chars, 0, PREVIEW_LIMIT);
        p.push(ELLIPSIS);
        p
    } else {
        exact.to_owned()
    }
}

/// The popover: hidden, or shown at an anchor with a preview of the quote.
/// `P` is whatever the embedding uses for a screen position.
pub enum Popover<P> {
    Hidden,
    Shown { anchor: P, preview: String },
}

/// The mathematical content of a [`Popover`].
pub ghost enum PopoverView<P> {
    Hidden,
    Shown { anchor: P, preview: Seq<char> },
}

impl<P> View for Popover<P> {
    type V = PopoverView<P>;

    open spec fn view(&self) -> PopoverView<P> {
        match self {
            Popover::Hidden => PopoverView::Hidden,
            Popover::Shown { anchor, preview } => PopoverView::Shown {
                anchor: *anchor,
                preview: preview@,
            },
        }
    }
}

impl<P> PopoverView<P> {
    /// The state after a selection of `exact` was made whose first client
    /// rectangle gave `rect`. Without a rectangle nothing changes; with one,
    /// whatever was shown is replaced.
    pub open spec fn selected(self, exact: Seq<char>, rect: Option<P>) -> PopoverView<P> {
        match rect {
            Some(anchor) => PopoverView::Shown { anchor, preview: preview_of(exact) },
            None => self,
        }
    }
}

impl<P> Popover<P> {
    /// A hidden popover.
    pub fn new() -> (p: Popover<P>)
        ensures
            p@ == PopoverView::<P>::Hidden,
    {
        Popover::Hidden
    }

    /// Whether the popover is on screen.
    pub fn is_visible(&self) -> (b: bool)
        ensures
            b == (self@ is Shown),
    {
        match self {
            Popover::Hidden => false,
            Popover::Shown { .. } => true,
        }
    }

    /// Reacts to a selection of `exact`. `rect` is the anchor taken from the
    /// first client rectangle of the selection, if it has one.
    pub fn select(&mut self, exact: &str, rect: Option<P>)
        ensures
            final(self)@ == old(self)@.selected(exact@, rect),
            rect is None ==> final(self)@ == old(self)@,
            rect is None && old(self)@ is Hidden ==> final(self)@ is Hidden,
    {
        match rect {
            Some(anchor) => {
                *self = Popover::Shown { anchor, preview: preview_text(exact) };
            },
            None => {},
        }
    }

    /// Hides the popover.
    pub fn dismiss(&mut self)
        ensures
            final(self)@ == PopoverView::<P>::Hidden,
    {
        *self = Popover::Hidden;
    }
}

} // verus!
