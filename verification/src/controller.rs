//! The loop controller: how many passes are played, and when playback ends.
//!
//! The controller is asked at every pass boundary, the first included, and
//! once for every decoded record.  Each time it is shown the cancellation
//! signal.  It begins the first pass, begins another after a pass has run to
//! its end if looping is on, and halts for good as soon as it sees the signal
//! set.  Every pass but the first begins with a reset of the subscribers'
//! session, so that they see a fresh timeline and not a continuation.

use vstd::prelude::*;

verus! {

/// What the controller tells the caller at a pass boundary.
#[derive(Clone, Copy, Debug, PartialEq, Eq, Structural)]
pub enum Directive {
    /// Open the file anew and play a pass from its first byte, with a new
    /// time tracker; before that, have the publishing side reset its
    /// per-session state if `reset_session` is set.
    BeginPass { reset_session: bool },
    /// Playback is over.
    Halt,
}

/// Mathematical value of a [`LoopController`].
pub struct ControllerView {
    /// Whether a pass that has run to its end is followed by another.
    pub looping: bool,
    /// Whether a pass has begun.
    pub started: bool,
    /// Whether playback is over.
    pub halted: bool,
}

impl ControllerView {
    /// The controller before anything has happened.
    pub open spec fn initial(looping: bool) -> ControllerView {
        ControllerView { looping, started: false, halted: false }
    }

    /// The controller after it has looked at the cancellation signal in the
    /// course of a pass.
    pub open spec fn polled(self, cancelled: bool) -> ControllerView {
        ControllerView { looping: self.looping, started: self.started, halted: self.halted || cancelled }
    }

    /// What the controller says at a pass boundary.
    pub open spec fn directive(self, cancelled: bool) -> Directive {
        if self.halted || cancelled {
            Directive::Halt
        } else if !self.started {
            Directive::BeginPass { reset_session: false }
        } else if self.looping {
            Directive::BeginPass { reset_session: true }
        } else {
            Directive::Halt
        }
    }

    /// The controller after a pass boundary.
    pub open spec fn stepped(self, cancelled: bool) -> ControllerView {
        ControllerView {
            looping: self.looping,
            started: self.started || self.directive(cancelled) is BeginPass,
            halted: self.directive(cancelled) is Halt,
        }
    }

    /// The controller after a run of pass boundaries, the signal reading
    /// `cancels[i]` at the i-th of them.
    pub open spec fn after(self, cancels: Seq<bool>) -> ControllerView
        decreases cancels.len(),
    {
        if cancels.len() == 0 {
            self
        } else {
            self.after(cancels.drop_last()).stepped(cancels.last())
        }
    }

    /// What the controller says at the boundary that follows a run of them.
    pub open spec fn directive_after(self, cancels: Seq<bool>, cancelled: bool) -> Directive {
        self.after(cancels).directive(cancelled)
    }
}

/// Decides when passes begin and when playback ends.
pub struct LoopController {
    looping: bool,
    started: bool,
    halted: bool,
}

impl View for LoopController {
    type V = ControllerView;

    closed spec fn view(&self) -> ControllerView {
        ControllerView { looping: self.looping, started: self.started, halted: self.halted }
    }
}

impl LoopController {
    /// A controller that has not begun a pass.
    pub fn new(looping: bool) -> (controller: Self)
        ensures
            controller@ == ControllerView::initial(looping),
    {
        LoopController { looping, started: false, halted: false }
    }

    /// Whether playback is over.
    pub fn is_halted(&self) -> (halted: bool)
        ensures
            halted == self@.halted,
    {
        self.halted
    }

    /// Looks at the cancellation signal in the course of a pass, once for
    /// every decoded record.  The answer is whether the pass goes on; a
    /// signal seen set is never forgotten.
    pub fn poll(&mut self, cancelled: bool) -> (go_on: bool)
        ensures
            final(self)@ == old(self)@.polled(cancelled),
            go_on == !final(self)@.halted,
    {
        if cancelled {
            self.halted = true;
        }
        !self.halted
    }

    /// Decides at a pass boundary whether a pass begins.
    ///
    /// The first pass begins unless playback was cancelled before it.  After
    /// a pass, another begins only if looping is on and the signal is not
    /// set, and it begins with a session reset.  In every other case the
    /// controller halts, and stays halted.
    pub fn next_pass(&mut self, cancelled: bool) -> (directive: Directive)
        ensures
            directive == old(self)@.directive(cancelled),
            final(self)@ == old(self)@.stepped(cancelled),
    {
        if self.halted || cancelled {
            self.halted = true;
            Directive::Halt
        } else if !self.started {
            self.started = true;
            Directive::BeginPass { reset_session: false }
        } else if self.looping {
            Directive::BeginPass { reset_session: true }
        } else {
            self.halted = true;
            Directive::Halt
        }
    }
}

/// Halting is final: a controller that has halted begins no pass, whatever
/// the signal says afterwards.
pub proof fn lemma_halted_stays_halted(state: ControllerView, cancels: Seq<bool>, cancelled: bool)
    requires
        state.halted,
    ensures
        state.after(cancels).halted,
        state.directive_after(cancels, cancelled) == Directive::Halt,
    decreases cancels.len(),
{
    if cancels.len() > 0 {
        lemma_halted_stays_halted(state, cancels.drop_last(), cancels.last());
    }
}

/// Cancellation prevents the next pass: once the signal has been seen set,
/// in the course of a pass or at a boundary, no pass begins any more, with
/// looping on or off.
pub proof fn lemma_cancellation_prevents_next_pass(
    state: ControllerView,
    cancels: Seq<bool>,
    cancelled: bool,
)
    ensures
        state.polled(true).directive_after(cancels, cancelled) == Directive::Halt,
        state.stepped(true).directive_after(cancels, cancelled) == Directive::Halt,
        state.directive(true) == Directive::Halt,
{
    lemma_halted_stays_halted(state.polled(true), cancels, cancelled);
    lemma_halted_stays_halted(state.stepped(true), cancels, cancelled);
}

/// Without looping there is exactly one pass: the first boundary begins it
/// unless playback is cancelled, and no later boundary begins another.
pub proof fn lemma_single_pass_without_looping(cancels: Seq<bool>, cancelled: bool)
    requires
        cancels.len() > 0,
    ensures
        ControllerView::initial(false).directive(false) == (Directive::BeginPass {
            reset_session: false,
        }),
        ControllerView::initial(false).directive_after(cancels, cancelled) == Directive::Halt,
    decreases cancels.len(),
{
    let start = ControllerView::initial(false);
    if cancels.len() == 1 {
        assert(start.after(cancels.drop_last()) == start);
    } else {
        lemma_single_pass_without_looping(cancels.drop_last(), cancels.last());
    }
}

/// The session is reset at the start of every pass but the first: a pass
/// begins with a reset exactly when a pass has begun before, and a pass has
/// begun before exactly when a boundary lies behind a controller that has
/// not halted.
pub proof fn lemma_reset_on_every_pass_but_the_first(
    looping: bool,
    cancels: Seq<bool>,
    cancelled: bool,
)
    ensures
        ControllerView::initial(looping).directive_after(cancels, cancelled) is BeginPass
            ==> ControllerView::initial(looping).directive_after(
            cancels,
            cancelled,
        )->reset_session == (cancels.len() > 0),
    decreases cancels.len(),
{
    lemma_started_after_the_first_boundary(looping, cancels);
}

/// A controller that has not halted has begun a pass exactly when a
/// boundary lies behind it; looping is as it was set.
pub proof fn lemma_started_after_the_first_boundary(looping: bool, cancels: Seq<bool>)
    ensures
        !ControllerView::initial(looping).after(cancels).halted ==> ControllerView::initial(
            looping,
        ).after(cancels).started == (cancels.len() > 0),
        ControllerView::initial(looping).after(cancels).looping == looping,
    decreases cancels.len(),
{
    if cancels.len() > 0 {
        lemma_started_after_the_first_boundary(looping, cancels.drop_last());
    }
}

} // verus!
