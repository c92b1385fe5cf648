//! What holds of a context under every schedule: the close is final, closing
//! twice is closing once, every waiter is resolved by the close, and a waiter
//! that was dropped stands in nobody's way.

use crate::context::{stored_handles, ContextState, Slot};
use std::task::Waker;
use vstd::prelude::*;

verus! {

/// One step of one task on a context.
pub enum Step {
    /// A waiter is created.
    Waiter,
    /// The waiter on `slot` is polled by a task with handle `waker`;
    /// `same_task` is what the comparison with the stored handle answers.
    Poll { slot: int, waker: Waker, same_task: bool },
    /// The waiter on `slot` is dropped.
    Cancel { slot: int },
    /// The context is closed.
    Close,
}

impl ContextState {
    /// Whether a task can take `step`: a waiter is polled and dropped only on
    /// a slot that the context holds.
    pub open spec fn enabled(self, step: Step) -> bool {
        match step {
            Step::Waiter => true,
            Step::Poll { slot, waker, same_task } => 0 <= slot < self.slots.len(),
            Step::Cancel { slot } => 0 <= slot < self.slots.len(),
            Step::Close => true,
        }
    }

    /// The state after `step`.
    pub open spec fn next(self, step: Step) -> Self {
        match step {
            Step::Waiter => self.waiter(),
            Step::Poll { slot, waker, same_task } => self.poll(slot, waker, same_task),
            Step::Cancel { slot } => self.cancel(slot),
            Step::Close => self.close(),
        }
    }

    /// The state after `steps`, taken first to last; a step that is not
    /// enabled when its turn comes is passed over.
    pub open spec fn run(self, steps: Seq<Step>) -> Self
        decreases steps.len(),
    {
        if steps.len() == 0 {
            self
        } else {
            let before = self.run(steps.drop_last());
            if before.enabled(steps.last()) {
                before.next(steps.last())
            } else {
                before
            }
        }
    }

    /// Whether no slot holds a handle.
    pub open spec fn is_silent(self) -> bool {
        forall|i: int| 0 <= i < self.slots.len() ==> (#[trigger] self.slots[i]).waker is None
    }
}

/// The handles stored in two runs of slots are those of the first run, then
/// those of the second.
pub proof fn lemma_stored_handles_concat(front: Seq<Slot>, back: Seq<Slot>)
    ensures
        stored_handles(front + back) == stored_handles(front) + stored_handles(back),
    decreases back.len(),
{
    if back.len() == 0 {
        assert(front + back =~= front);
    } else {
        lemma_stored_handles_concat(front, back.drop_last());
        assert((front + back).drop_last() =~= front + back.drop_last());
    }
}

/// A single slot gives a sweep its stored handle and nothing else.
pub proof fn lemma_stored_handles_one(slot: Slot)
    ensures
        stored_handles(seq![slot]) == slot.stored(),
{
    assert(seq![slot].drop_last() =~= Seq::<Slot>::empty());
    assert(stored_handles(seq![slot]) =~= stored_handles(seq![slot].drop_last())
        + slot.stored());
    assert(Seq::<Waker>::empty() + slot.stored() =~= slot.stored());
}

/// Slots without handles give a sweep nothing to invoke.
pub proof fn lemma_silent_slots_wake_nobody(slots: Seq<Slot>)
    requires
        forall|i: int| 0 <= i < slots.len() ==> (#[trigger] slots[i]).waker is None,
    ensures
        stored_handles(slots) == Seq::<Waker>::empty(),
    decreases slots.len(),
{
    if slots.len() > 0 {
        lemma_silent_slots_wake_nobody(slots.drop_last());
    }
}

/// The close is final: once a context is closed, no schedule opens it again.
pub proof fn lemma_closed_stays_closed(state: ContextState, steps: Seq<Step>)
    requires
        state.is_closed,
    ensures
        state.run(steps).is_closed,
    decreases steps.len(),
{
    if steps.len() > 0 {
        lemma_closed_stays_closed(state, steps.drop_last());
    }
}

/// A closed context stores no handle, whatever is polled on it afterwards: a
/// task that polls after the close is never left to wait for a wake.
pub proof fn lemma_closed_stays_silent(state: ContextState, steps: Seq<Step>)
    requires
        state.is_closed,
        state.is_silent(),
    ensures
        state.run(steps).is_silent(),
    decreases steps.len(),
{
    if steps.len() > 0 {
        lemma_closed_stays_closed(state, steps.drop_last());
        lemma_closed_stays_silent(state, steps.drop_last());
    }
}

/// The close resolves every waiter and leaves no handle behind, so that each
/// stored handle is invoked by the close that found it and by no later one.
pub proof fn lemma_close_resolves_all(state: ContextState)
    ensures
        state.close().is_closed,
        state.close().is_silent(),
        state.close().slots.len() == state.slots.len(),
        forall|slot: int| 0 <= slot < state.slots.len() ==> state.close().is_ready(slot),
        state.close().woken_by_close() == Seq::<Waker>::empty(),
{
    lemma_silent_slots_wake_nobody(state.close().slots);
}

/// Idempotent close: a second close changes nothing and wakes nobody.
pub proof fn lemma_close_idempotent(state: ContextState)
    ensures
        state.close().close() == state.close(),
        state.close().woken_by_close() == Seq::<Waker>::empty(),
{
    lemma_close_resolves_all(state);
    assert(state.close().close().slots =~= state.close().slots);
}

/// Late waiter: a waiter created after the close is found resolved by its
/// first poll, which stores no handle, so that no wake is needed. This holds
/// after any number of closes and whatever happened in between.
pub proof fn lemma_late_waiter(
    state: ContextState,
    steps: Seq<Step>,
    waker: Waker,
    same_task: bool,
)
    requires
        state.is_closed,
    ensures
        ({
            let late = state.run(steps).waiter();
            let slot = state.run(steps).slots.len() as int;
            &&& late.is_ready(slot)
            &&& late.poll(slot, waker, same_task) == late
        }),
{
    lemma_closed_stays_closed(state, steps);
}

/// Cancel-safety: a waiter can be dropped at any time, and the close that
/// follows reaches the state that it would have reached without the drop. It
/// invokes the handles of the other slots, in slot order, and not the one of
/// the dropped waiter.
pub proof fn lemma_cancel_then_close(state: ContextState, slot: int)
    requires
        0 <= slot < state.slots.len(),
    ensures
        state.cancel(slot).close() == state.close(),
        state.cancel(slot).woken_by_close() == stored_handles(state.slots.take(slot))
            + stored_handles(state.slots.skip(slot + 1)),
        state.woken_by_close() == stored_handles(state.slots.take(slot))
            + state.slots[slot].stored() + stored_handles(state.slots.skip(slot + 1)),
{
    let front = state.slots.take(slot);
    let back = state.slots.skip(slot + 1);
    assert(state.cancel(slot).close().slots =~= state.close().slots);
    assert(state.slots =~= (front + seq![state.slots[slot]]) + back);
    assert(state.cancel(slot).slots =~= (front + seq![Slot::cleared()]) + back);
    lemma_stored_handles_concat(front + seq![state.slots[slot]], back);
    lemma_stored_handles_concat(front, seq![state.slots[slot]]);
    lemma_stored_handles_concat(front + seq![Slot::cleared()], back);
    lemma_stored_handles_concat(front, seq![Slot::cleared()]);
    lemma_stored_handles_one(state.slots[slot]);
    lemma_stored_handles_one(Slot::cleared());
    assert(stored_handles(front) + Seq::<Waker>::empty() =~= stored_handles(front));
}

} // verus!
