//! The hand-off between a stepping driver and a cooperative event loop.
//!
//! A driver runs on a thread of its own and produces one event per tick. The
//! event loop must never spin waiting for it. The two share a single slot and
//! a place for a wake handle: the driver stores its event in the slot and
//! takes the handle out so that it can be invoked; the event loop takes the
//! event, or leaves its handle and goes to sleep.
//!
//! The slot holds one event. A driver that ticks twice before the event loop
//! looks overwrites the first event: the driver never waits.

use vstd::prelude::*;

verus! {

/// What the driver and the event loop share: the slot and the wake handle.
///
/// `E` is the event and `W` the wake handle. Nothing is asked of either.
#[derive(Debug)]
pub struct SharedState<E, W> {
    /// The event that waits for the event loop, if any.
    pub slot: Option<E>,
    /// The handle by which the event loop asked to be woken, if it sleeps.
    pub waker: Option<W>,
}

impl<E, W> SharedState<E, W> {
    /// The state after the driver has stored `event`, and the handle it has
    /// to invoke.
    pub open spec fn spec_publish(self, event: E) -> (Self, Option<W>) {
        (SharedState { slot: Some(event), waker: None }, self.waker)
    }

    /// The state after the event loop has polled with `waker`, and what it
    /// got.
    pub open spec fn spec_poll_next(self, waker: W) -> (Self, Option<E>) {
        match self.slot {
            Some(event) => (SharedState { slot: None, waker: self.waker }, Some(event)),
            None => (SharedState { slot: None, waker: Some(waker) }, None),
        }
    }

    /// No handle is left behind while an event waits: whoever left it has
    /// been woken for that event.
    pub open spec fn wf(self) -> bool {
        self.slot is Some ==> self.waker is None
    }

    /// An empty slot and nobody asleep.
    pub fn new() -> (state: Self)
        ensures
            state.slot is None,
            state.waker is None,
            state.wf(),
    {
        SharedState { slot: None, waker: None }
    }

    /// The driver's side: stores `event` in the slot, over whatever was
    /// there, and hands out the wake handle, if one was left, for the caller
    /// to invoke. The handle is gone from the state afterwards.
    pub fn publish(&mut self, event: E) -> (wake: Option<W>)
        ensures
            (*final(self), wake) == old(self).spec_publish(event),
            final(self).wf(),
        no_unwind
    {
        let mut wake: Option<W> = None;
        core::mem::swap(&mut self.waker, &mut wake);
        self.slot = Some(event);
        wake
    }

    /// The event loop's side: takes the event out of the slot, or, where the
    /// slot is empty, leaves `waker` to be woken by and returns `None`.
    pub fn poll_next(&mut self, waker: W) -> (event: Option<E>)
        ensures
            (*final(self), event) == old(self).spec_poll_next(waker),
            old(self).wf() ==> final(self).wf(),
        no_unwind
    {
        let mut event: Option<E> = None;
        core::mem::swap(&mut self.slot, &mut event);
        match event {
            Some(_) => {},
            None => {
                self.waker = Some(waker);
            },
        }
        event
    }
}

/// An event loop that polls an empty slot gets nothing and leaves its
/// handle. The driver's next event hands that very handle out, so the event
/// loop is woken. Its next poll gets exactly that event, and the poll after
/// that gets nothing: the event is delivered once.
pub proof fn lemma_no_lost_wake<E, W>(state: SharedState<E, W>, event: E, first: W, second: W, third: W)
    requires
        state.slot is None,
    ensures
        ({
            let (asleep, nothing) = state.spec_poll_next(first);
            let (filled, wake) = asleep.spec_publish(event);
            let (taken, got) = filled.spec_poll_next(second);
            let (after, again) = taken.spec_poll_next(third);
            &&& nothing is None
            &&& wake == Some(first)
            &&& got == Some(event)
            &&& again is None
            &&& after.waker == Some(third)
        }),
{
}

/// However many events the driver stores before the event loop looks, the
/// event loop gets the last of them: the slot buffers one event and no more.
pub proof fn lemma_single_slot<E, W>(state: SharedState<E, W>, earlier: E, later: E, waker: W)
    ensures
        state.spec_publish(earlier).0.spec_publish(later).0.spec_poll_next(waker).1 == Some(later),
        state.spec_publish(earlier).0.spec_publish(later).1 is None,
{
}

} // verus!
