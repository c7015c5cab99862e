//! The collection loop of one target, as a pure state machine.
//!
//! Each configured target is driven by one independent timed loop.  The loop
//! itself (the interval timer, the cancellation wait, the poll) is I/O and
//! lives outside this library; what is modeled here is every decision the
//! loop takes: given its current state and the event that woke it, which
//! state it enters next and which action it performs.
//!
//! States: `Idle -> Ticking -> (Collecting | Cancelling) -> Terminated`.
//! While `Ticking` the loop waits for the next interval boundary or for the
//! shared cancellation signal, whichever comes first — those are the only
//! two wake conditions.  A poll failure is logged and the loop returns to
//! `Ticking`; it never terminates the loop.  Cancellation never aborts an
//! in-flight poll: it only prevents the next one.

use vstd::prelude::*;

verus! {

/// The state of one target's collection loop.
#[derive(Clone, Copy, Debug, PartialEq, Eq, Structural)]
pub enum SchedState {
    /// Before the loop has started waiting for its first tick.
    Idle,
    /// Waiting for the next interval boundary or for cancellation.
    Ticking,
    /// A poll is in flight.
    Collecting,
    /// The cancellation signal was observed; the loop is winding down.
    Cancelling,
    /// The loop has exited.
    Terminated,
}

/// An event that wakes the collection loop.
#[derive(Clone, Copy, Debug, PartialEq, Eq, Structural)]
pub enum SchedEvent {
    /// The loop was started.
    Started,
    /// The interval boundary was reached.
    Tick,
    /// The shared cancellation signal fired.
    Cancelled,
    /// The in-flight poll finished, successfully or not.  A failed poll is
    /// logged by the loop and treated the same as a successful one here.
    CollectDone,
}

/// The action the loop performs after a step.
#[derive(Clone, Copy, Debug, PartialEq, Eq, Structural)]
pub enum SchedAction {
    /// Wait for the next wake condition.
    Wait,
    /// Issue one poll of the target.
    Poll,
    /// Exit the loop.
    Stop,
}

/// One decision of the collection loop: from a state and the event that woke
/// it, the next state and the action to perform.
pub open spec fn spec_sched_step(s: SchedState, e: SchedEvent) -> (SchedState, SchedAction) {
    match s {
        SchedState::Idle => match e {
            SchedEvent::Started => (SchedState::Ticking, SchedAction::Wait),
            SchedEvent::Cancelled => (SchedState::Cancelling, SchedAction::Stop),
            _ => (SchedState::Idle, SchedAction::Wait),
        },
        SchedState::Ticking => match e {
            SchedEvent::Tick => (SchedState::Collecting, SchedAction::Poll),
            SchedEvent::Cancelled => (SchedState::Cancelling, SchedAction::Stop),
            _ => (SchedState::Ticking, SchedAction::Wait),
        },
        SchedState::Collecting => match e {
            // The poll runs to completion; even a cancellation observed here
            // only takes effect at the next wait.
            SchedEvent::CollectDone => (SchedState::Ticking, SchedAction::Wait),
            _ => (SchedState::Collecting, SchedAction::Wait),
        },
        SchedState::Cancelling => (SchedState::Terminated, SchedAction::Stop),
        SchedState::Terminated => (SchedState::Terminated, SchedAction::Stop),
    }
}

/// Executable form of one loop decision.
pub fn sched_step(s: SchedState, e: SchedEvent) -> (r: (SchedState, SchedAction))
    ensures
        r == spec_sched_step(s, e),
{
    match s {
        SchedState::Idle => match e {
            SchedEvent::Started => (SchedState::Ticking, SchedAction::Wait),
            SchedEvent::Cancelled => (SchedState::Cancelling, SchedAction::Stop),
            _ => (SchedState::Idle, SchedAction::Wait),
        },
        SchedState::Ticking => match e {
            SchedEvent::Tick => (SchedState::Collecting, SchedAction::Poll),
            SchedEvent::Cancelled => (SchedState::Cancelling, SchedAction::Stop),
            _ => (SchedState::Ticking, SchedAction::Wait),
        },
        SchedState::Collecting => match e {
            SchedEvent::CollectDone => (SchedState::Ticking, SchedAction::Wait),
            _ => (SchedState::Collecting, SchedAction::Wait),
        },
        SchedState::Cancelling => (SchedState::Terminated, SchedAction::Stop),
        SchedState::Terminated => (SchedState::Terminated, SchedAction::Stop),
    }
}

/// Cancellation lets an in-flight poll finish and then terminates the loop
/// without starting another poll:
/// - a step woken by the cancellation signal never issues a poll, and from a
///   waiting state it heads straight for termination;
/// - an in-flight poll still completes its step back to `Ticking` (it is not
///   aborted), after which the pending cancellation terminates the loop;
/// - a terminated loop stays terminated and never polls again.
pub proof fn lemma_cancellation_stops_polling(s: SchedState, e: SchedEvent)
    ensures
        spec_sched_step(s, SchedEvent::Cancelled).1 != SchedAction::Poll,
        s == SchedState::Idle || s == SchedState::Ticking ==> spec_sched_step(
            s,
            SchedEvent::Cancelled,
        ).0 == SchedState::Cancelling,
        spec_sched_step(SchedState::Collecting, SchedEvent::CollectDone).0 == SchedState::Ticking,
        spec_sched_step(SchedState::Cancelling, e).0 == SchedState::Terminated,
        spec_sched_step(SchedState::Terminated, e) == (SchedState::Terminated, SchedAction::Stop),
{
}

/// The only decision that ever issues a poll is a tick received while
/// waiting: polls start at interval boundaries and nowhere else.
pub proof fn lemma_poll_only_on_tick(s: SchedState, e: SchedEvent)
    ensures
        spec_sched_step(s, e).1 == SchedAction::Poll <==> (s == SchedState::Ticking
            && e == SchedEvent::Tick),
{
}

} // verus!
