//! A cancellation context: a signal that is closed once and resolves every
//! waiter, those that suspended before the close and those created after it.

pub mod schedule;

use crate::task::{wake_all, will_wake, Poll};
use std::task::Waker;
use vstd::prelude::*;

verus! {

/// The record of one waiter.
pub struct Slot {
    /// Whether the waiter still has to suspend.
    pub pending: bool,
    /// The handle of the task that suspended on it last.
    pub waker: Option<Waker>,
}

impl Slot {
    /// The slot of a waiter that was just created.
    pub open spec fn fresh() -> Slot {
        Slot { pending: true, waker: None }
    }

    /// The slot of a waiter that has resolved or was dropped.
    pub open spec fn cleared() -> Slot {
        Slot { pending: false, waker: None }
    }

    /// The handle that a sweep of this slot invokes, if any.
    pub open spec fn stored(self) -> Seq<Waker> {
        match self.waker {
            Some(waker) => seq![waker],
            None => Seq::empty(),
        }
    }
}

/// The handles stored in `slots`, in slot order.
pub open spec fn stored_handles(slots: Seq<Slot>) -> Seq<Waker>
    decreases slots.len(),
{
    if slots.len() == 0 {
        Seq::empty()
    } else {
        stored_handles(slots.drop_last()) + slots.last().stored()
    }
}

/// The mathematical state of a context.
pub struct ContextState {
    /// Set by the first close, and never reset.
    pub is_closed: bool,
    /// One slot for each waiter ever created, in order of creation.
    pub slots: Seq<Slot>,
}

impl ContextState {
    /// An open context without waiters.
    pub open spec fn open() -> Self {
        ContextState { is_closed: false, slots: Seq::empty() }
    }

    /// The state after a waiter was created: a fresh slot at the end.
    pub open spec fn waiter(self) -> Self {
        ContextState { slots: self.slots.push(Slot::fresh()), ..self }
    }

    /// The state after a close: the flag is set and every slot is cleared.
    pub open spec fn close(self) -> Self {
        ContextState {
            is_closed: true,
            slots: Seq::new(self.slots.len(), |i: int| Slot::cleared()),
        }
    }

    /// The handles that a close invokes, each once, in slot order.
    pub open spec fn woken_by_close(self) -> Seq<Waker> {
        stored_handles(self.slots)
    }

    /// Whether a poll of the waiter on `slot` finds it resolved.
    pub open spec fn is_ready(self, slot: int) -> bool {
        self.is_closed || !self.slots[slot].pending
    }

    /// The state after the waiter on `slot` was polled with `waker`. A
    /// resolved waiter leaves no trace. A pending one keeps the stored handle
    /// if there is one and `same_task` says that it wakes the polling task,
    /// and stores `waker` otherwise.
    pub open spec fn poll(self, slot: int, waker: Waker, same_task: bool) -> Self {
        if self.is_ready(slot) || (self.slots[slot].waker is Some && same_task) {
            self
        } else {
            ContextState {
                slots: self.slots.update(slot, Slot { pending: true, waker: Some(waker) }),
                ..self
            }
        }
    }

    /// The state after the waiter on `slot` was dropped: its slot is cleared
    /// in place and stays in the list.
    pub open spec fn cancel(self, slot: int) -> Self {
        ContextState { slots: self.slots.update(slot, Slot::cleared()), ..self }
    }
}

/// A cancellation context.
pub struct Context {
    is_closed: bool,
    slots: Vec<Slot>,
}

/// The handle of one waiter: it names the waiter's slot.
pub struct ContextWaiter {
    slot: usize,
}

impl View for Context {
    type V = ContextState;

    closed spec fn view(&self) -> ContextState {
        ContextState { is_closed: self.is_closed, slots: self.slots@ }
    }
}

impl Context {
    /// An open context without waiters.
    pub fn new() -> (ctx: Self)
        ensures
            ctx@ == ContextState::open(),
    {
        Context { is_closed: false, slots: Vec::new() }
    }

    /// Creates a waiter. It may be created after the close, and is then found
    /// resolved by its first poll.
    pub fn waiter(&mut self) -> (waiter: ContextWaiter)
        ensures
            final(self)@ == old(self)@.waiter(),
            waiter.index() == old(self)@.slots.len(),
    {
        let slot = self.slots.len();
        self.slots.push(Slot { pending: true, waker: None });
        ContextWaiter { slot }
    }

    /// Closes the context without waking anybody: one indivisible step. The
    /// flag is set, every slot is cleared, and the handles that were stored
    /// are returned in slot order, each to be invoked once.
    pub fn drain(&mut self) -> (woken: Vec<Waker>)
        ensures
            final(self)@ == old(self)@.close(),
            woken@ == old(self)@.woken_by_close(),
    {
        self.is_closed = true;
        let mut woken: Vec<Waker> = Vec::new();
        let n = self.slots.len();
        let mut i: usize = 0;
        while i < n
            invariant
                i <= n,
                n == self.slots@.len(),
                self.is_closed,
                self.slots@.len() == old(self).slots@.len(),
                forall|j: int| 0 <= j < i ==> self.slots@[j] == Slot::cleared(),
                forall|j: int| i <= j < n ==> self.slots@[j] == old(self).slots@[j],
                woken@ == stored_handles(old(self).slots@.take(i as int)),
            decreases n - i,
        {
            proof {
                let before = old(self).slots@;
                assert(before.take(i + 1).drop_last() =~= before.take(i as int));
            }
            self.slots[i].pending = false;
            match self.slots[i].waker.take() {
                Some(waker) => {
                    woken.push(waker);
                },
                None => {},
            }
            i = i + 1;
        }
        proof {
            assert(old(self).slots@.take(n as int) =~= old(self).slots@);
            assert(self.slots@ =~= old(self)@.close().slots);
        }
        woken
    }

    /// Closes the context and wakes every waiter that is suspended on it.
    /// Closing again changes nothing and wakes nobody.
    pub fn close(&mut self)
        ensures
            final(self)@ == old(self)@.close(),
    {
        let woken = self.drain();
        wake_all(woken);
    }

    /// Whether the context has been closed.
    pub fn is_closed(&self) -> (closed: bool)
        ensures
            closed == self@.is_closed,
    {
        self.is_closed
    }

    /// The number of waiters ever created.
    pub fn slot_count(&self) -> (n: usize)
        ensures
            n == self@.slots.len(),
    {
        self.slots.len()
    }
}

impl Clone for ContextWaiter {
    /// Another handle of the same waiter. The handles share the slot: once
    /// one of them is dropped, the others are resolved.
    fn clone(&self) -> (twin: Self)
        ensures
            twin == *self,
    {
        ContextWaiter { slot: self.slot }
    }
}

impl ContextWaiter {
    /// The position of this waiter's slot in its context.
    pub closed spec fn index(self) -> int {
        self.slot as int
    }

    /// The position of this waiter's slot in its context.
    pub fn slot(&self) -> (slot: usize)
        ensures
            slot == self.index(),
    {
        self.slot
    }

    /// Whether `ctx` holds this waiter's slot, as the context that created
    /// the waiter does from then on.
    pub open spec fn belongs_to(self, ctx: ContextState) -> bool {
        0 <= self.index() < ctx.slots.len()
    }

    /// The suspend check, for a known answer to "does the stored handle wake
    /// the polling task": one indivisible step. The answer counts only while
    /// the waiter is pending and a handle is stored.
    pub fn poll_as(&self, ctx: &mut Context, waker: Waker, same_task: bool) -> (r: Poll<()>)
        requires
            self.belongs_to(old(ctx)@),
        ensures
            final(ctx)@ == old(ctx)@.poll(self.index(), waker, same_task),
            r is Ready <==> old(ctx)@.is_ready(self.index()),
    {
        if ctx.is_closed || !ctx.slots[self.slot].pending {
            return Poll::Ready(());
        }
        if ctx.slots[self.slot].waker.is_some() && same_task {
            return Poll::Pending;
        }
        ctx.slots[self.slot].waker = Some(waker);
        proof {
            assert(ctx.slots@ =~= old(ctx).slots@.update(
                self.index(),
                Slot { pending: true, waker: Some(waker) },
            ));
        }
        Poll::Pending
    }

    /// The suspend check: one indivisible step. The waiter is resolved once
    /// the context is closed or its own slot is cleared. While it is pending,
    /// the handle of the polling task is left in the slot, unless the handle
    /// already stored there is found to wake the same task.
    pub fn poll(&self, ctx: &mut Context, waker: Waker) -> (r: Poll<()>)
        requires
            self.belongs_to(old(ctx)@),
        ensures
            final(ctx)@ == old(ctx)@.poll(self.index(), waker, false) || final(ctx)@ == old(
                ctx,
            )@.poll(self.index(), waker, true),
            r is Ready <==> old(ctx)@.is_ready(self.index()),
    {
        if ctx.is_closed || !ctx.slots[self.slot].pending {
            return Poll::Ready(());
        }
        let same_task = match &ctx.slots[self.slot].waker {
            Some(stored) => will_wake(&waker, stored),
            None => false,
        };
        self.poll_as(ctx, waker, same_task)
    }

    /// Drops the waiter: one indivisible step. Its slot is cleared and its
    /// stored handle is discarded without being invoked.
    pub fn cancel(self, ctx: &mut Context)
        requires
            self.belongs_to(old(ctx)@),
        ensures
            final(ctx)@ == old(ctx)@.cancel(self.index()),
    {
        ctx.slots[self.slot].pending = false;
        ctx.slots[self.slot].waker = None;
        proof {
            assert(ctx.slots@ =~= old(ctx).slots@.update(self.index(), Slot::cleared()));
        }
    }
}

} // verus!
