//! Short-lived notifications that hide themselves.

use vstd::prelude::*;

verus! {

/// How long a toast stays on screen, in milliseconds.
pub const TOAST_DELAY_MS: u32 = 2000;

/// The one toast of the page. `generation` counts the calls of
/// [`Toast::show`]; a timer hides the toast only if no later call came.
pub struct Toast {
    pub message: String,
    pub visible: bool,
    pub generation: u64,
}

/// The timer to start after a toast was shown: after `delay_ms`, hand
/// `generation` to [`Toast::timer_fired`].
#[derive(Clone, Copy, Debug, PartialEq, Eq, Structural)]
pub struct HideTimer {
    pub delay_ms: u32,
    pub generation: u64,
}

/// The mathematical content of a [`Toast`].
pub ghost struct ToastView {
    pub message: Seq<char>,
    pub visible: bool,
    pub generation: nat,
}

/// The generation after `g`; the counter starts over after the largest.
pub open spec fn next_generation(g: nat) -> nat {
    if g >= u64::MAX {
        0
    } else {
        g + 1
    }
}

impl ToastView {
    /// The state after `message` was shown.
    pub open spec fn shown(self, message: Seq<char>) -> ToastView {
        ToastView { message, visible: true, generation: next_generation(self.generation) }
    }

    /// The state after the timer of `generation` fired.
    pub open spec fn fired(self, generation: nat) -> ToastView {
        if generation == self.generation {
            ToastView { visible: false, ..self }
        } else {
            self
        }
    }
}

impl View for Toast {
    type V = ToastView;

    open spec fn view(&self) -> ToastView {
        ToastView {
            message: self.message@,
            visible: self.visible,
            generation: self.generation as nat,
        }
    }
}

impl Toast {
    /// No toast on screen.
    pub fn new() -> (t: Toast)
        ensures
            t@ == (ToastView { message: Seq::<char>::empty(), visible: false, generation: 0 }),
    {
        Toast { message: String::new(), visible: false, generation: 0 }
    }

    /// Shows `message`, replacing whatever was on screen, and returns the
    /// timer that will hide it.
    pub fn show(&mut self, message: &str) -> (timer: HideTimer)
        ensures
            final(self)@ == old(self)@.shown(message@),
            final(self)@.visible,
            timer.delay_ms == TOAST_DELAY_MS,
            timer.generation == final(self).generation,
            timer.generation != old(self).generation,
    {
        self.message = message.to_owned();
        self.visible = true;
        self.generation = if self.generation == u64::MAX {
            0
        } else {
            self.generation + 1
        };
        HideTimer { delay_ms: TOAST_DELAY_MS, generation: self.generation }
    }

    /// The timer that was started for `generation` has run out: the toast is
    /// hidden, unless it was shown again since.
    pub fn timer_fired(&mut self, generation: u64)
        ensures
            final(self)@ == old(self)@.fired(generation as nat),
            generation == old(self).generation ==> !final(self)@.visible,
            generation != old(self).generation ==> final(self)@ == old(self)@,
    {
        if generation == self.generation {
            self.visible = false;
        }
    }
}

/// A toast that is shown and then left alone is hidden when its timer fires.
pub proof fn lemma_toast_hides_after_delay(toast: Toast, message: Seq<char>)
    ensures
        toast@.shown(message).visible,
        toast@.shown(message).message == message,
        !toast@.shown(message).fired(toast@.shown(message).generation).visible,
{
}

/// Of two toasts shown in a row the second wins: there is one toast, it
/// carries the second message, the timer of the first no longer hides it,
/// and the timer of the second does.
pub proof fn lemma_last_toast_wins(toast: Toast, first: Seq<char>, second: Seq<char>)
    ensures
        ({
            let one = toast@.shown(first);
            let two = one.shown(second);
            &&& two.visible
            &&& two.message == second
            &&& two.fired(one.generation) == two
            &&& !two.fired(two.generation).visible
            &&& two.fired(two.generation).message == second
        }),
{
}

} // verus!
