//! An asynchronous mutual-exclusion lock.
//!
//! The lock word holds the identifier of the current holder, or zero. A task
//! that finds the lock taken leaves its wake handle in the waiter list and
//! suspends; the holder, when it releases, detaches the whole list and wakes
//! the waiters in the order in which they arrived.

use crate::task::{wake_all, Poll};
use std::task::Waker;
use vstd::prelude::*;

verus! {

/// The value that the identifier counter of a new mutex starts from.
pub const FIRST_LOCK_ID: usize = 1000;

/// The mathematical state of a mutex.
pub struct MutexState<T> {
    /// The protected value.
    pub value: T,
    /// The counter from which lock identifiers are drawn.
    pub lock_index: usize,
    /// The identifier of the holder; zero while the lock is free.
    pub holder: usize,
    /// The wake handles of the suspended tasks, oldest first.
    pub waiters: Seq<Waker>,
}

/// The successor of `n`, wrapping to zero at the width of `usize`.
pub open spec fn wrapping_succ(n: usize) -> usize {
    if n == usize::MAX {
        0
    } else {
        (n + 1) as usize
    }
}

impl<T> MutexState<T> {
    /// A free lock around `value`.
    pub open spec fn unlocked(value: T) -> Self {
        MutexState { value, lock_index: FIRST_LOCK_ID, holder: 0, waiters: Seq::empty() }
    }

    /// The identifier that the next lock attempt draws: the counter's value,
    /// or the one after it where the counter stands at zero.
    pub open spec fn fresh_id(self) -> usize {
        if self.lock_index == 0 {
            1
        } else {
            self.lock_index
        }
    }

    /// Whether an attempt made now is granted the lock.
    pub open spec fn is_free(self) -> bool {
        self.holder == 0
    }

    /// The state after a lock attempt: an identifier is drawn, and becomes the
    /// holder if the lock was free.
    pub open spec fn lock(self) -> Self {
        MutexState {
            lock_index: wrapping_succ(self.fresh_id()),
            holder: if self.is_free() {
                self.fresh_id()
            } else {
                self.holder
            },
            ..self
        }
    }

    /// The state after the attempt `lock_id` is polled with `waker`: it takes
    /// the lock if it is free, and joins the waiters otherwise.
    pub open spec fn poll(self, lock_id: usize, waker: Waker) -> Self {
        if self.is_free() {
            MutexState { holder: lock_id, ..self }
        } else {
            MutexState { waiters: self.waiters.push(waker), ..self }
        }
    }

    /// The handles that a release detaches, in the order in which they are
    /// invoked: the whole waiter list, oldest waiter first.
    pub open spec fn woken_by_release(self) -> Seq<Waker> {
        self.waiters
    }

    /// The state after the holder has released: the lock is free and the
    /// waiter list is empty.
    pub open spec fn release(self) -> Self {
        MutexState { holder: 0, waiters: Seq::empty(), ..self }
    }

    /// The state after the holder has replaced the protected value.
    pub open spec fn with_value(self, value: T) -> Self {
        MutexState { value, ..self }
    }
}

/// One suspended attempt in the waiter list. The list grows at its head, so a
/// node's `next` is the attempt that arrived just before it.
struct MutexWaiter {
    next: Option<Box<MutexWaiter>>,
    waker: Waker,
}

/// The handles of a waiter list in order of arrival, oldest first.
spec fn arrivals(list: Option<Box<MutexWaiter>>) -> Seq<Waker>
    decreases list,
{
    match list {
        None => Seq::empty(),
        Some(node) => arrivals(node.next).push(node.waker),
    }
}

/// Moves the handles of `list` to the end of `out`, oldest first: the walk
/// goes to the end of the chain before it hands out any handle.
fn detach_in_order(list: Option<Box<MutexWaiter>>, out: &mut Vec<Waker>)
    ensures
        final(out)@ == old(out)@ + arrivals(list),
    decreases list,
{
    match list {
        None => {},
        Some(node) => {
            let MutexWaiter { next, waker } = *node;
            detach_in_order(next, out);
            out.push(waker);
        },
    }
}

/// An asynchronous mutex around a value of type `T`.
pub struct Mutex<T> {
    lock_index: usize,
    current_lock_id: usize,
    waiter_list: Option<Box<MutexWaiter>>,
    data: T,
}

/// A lock attempt that found the lock taken and waits for it.
pub struct MutexAcquire {
    lock_id: usize,
}

/// The proof of holding the lock. It cannot be copied, and only a granted
/// attempt creates one.
pub struct MutexGuard {
    lock_id: usize,
}

impl MutexAcquire {
    #[verifier::type_invariant]
    spec fn wf(self) -> bool {
        self.lock_id != 0
    }

    /// The identifier that this attempt drew.
    pub closed spec fn id(self) -> usize {
        self.lock_id
    }

    /// The identifier that this attempt drew.
    pub fn lock_id(&self) -> (id: usize)
        ensures
            id == self.id(),
            id != 0,
    {
        proof {
            use_type_invariant(self);
        }
        self.lock_id
    }

    /// Polls the attempt: one indivisible step. If the lock is free the
    /// attempt takes it and `waker` is dropped; otherwise `waker` joins the
    /// waiter list behind those that arrived before, and the task suspends.
    pub fn poll<T>(&self, lock: &mut Mutex<T>, waker: Waker) -> (r: Poll<MutexGuard>)
        ensures
            final(lock)@ == old(lock)@.poll(self.id(), waker),
            self.id() != 0,
            match r {
                Poll::Ready(guard) => old(lock)@.is_free() && guard.id() == self.id(),
                Poll::Pending => !old(lock)@.is_free(),
            },
    {
        proof {
            use_type_invariant(self);
        }
        if lock.current_lock_id == 0 {
            lock.current_lock_id = self.lock_id;
            Poll::Ready(MutexGuard { lock_id: self.lock_id })
        } else {
            let next = lock.waiter_list.take();
            lock.waiter_list = Some(Box::new(MutexWaiter { next, waker }));
            Poll::Pending
        }
    }
}

impl MutexGuard {
    #[verifier::type_invariant]
    spec fn wf(self) -> bool {
        self.lock_id != 0
    }

    /// The identifier under which the lock was granted.
    pub closed spec fn id(self) -> usize {
        self.lock_id
    }

    /// The identifier under which the lock was granted.
    pub fn lock_id(&self) -> (id: usize)
        ensures
            id == self.id(),
            id != 0,
    {
        proof {
            use_type_invariant(self);
        }
        self.lock_id
    }

    /// The protected value, for reading.
    pub fn access<'a, T>(&self, lock: &'a Mutex<T>) -> (value: &'a T)
        requires
            lock@.holder == self.id(),
        ensures
            *value == lock@.value,
    {
        &lock.data
    }

    /// The protected value, for writing. Nothing but the value changes.
    pub fn access_mut<'a, T>(&self, lock: &'a mut Mutex<T>) -> (value: &'a mut T)
        requires
            old(lock)@.holder == self.id(),
        ensures
            *value == old(lock)@.value,
            final(lock)@ == old(lock)@.with_value(*final(value)),
    {
        &mut lock.data
    }

    /// Gives the lock up: one indivisible step. The lock becomes free, the
    /// waiter list is detached whole, and its handles are returned in the
    /// order in which they must be invoked, oldest waiter first.
    pub fn release<T>(self, lock: &mut Mutex<T>) -> (woken: Vec<Waker>)
        requires
            old(lock)@.holder == self.id(),
        ensures
            final(lock)@ == old(lock)@.release(),
            woken@ == old(lock)@.woken_by_release(),
    {
        lock.current_lock_id = 0;
        let list = lock.waiter_list.take();
        let mut woken: Vec<Waker> = Vec::new();
        detach_in_order(list, &mut woken);
        woken
    }

    /// Gives the lock up and wakes every waiter that arrived while it was
    /// held, oldest first.
    pub fn unlock<T>(self, lock: &mut Mutex<T>)
        requires
            old(lock)@.holder == self.id(),
        ensures
            final(lock)@ == old(lock)@.release(),
    {
        let woken = self.release(lock);
        wake_all(woken);
    }
}

impl<T> View for Mutex<T> {
    type V = MutexState<T>;

    closed spec fn view(&self) -> MutexState<T> {
        MutexState {
            value: self.data,
            lock_index: self.lock_index,
            holder: self.current_lock_id,
            waiters: arrivals(self.waiter_list),
        }
    }
}

impl<T> Mutex<T> {
    /// A free lock around `t`.
    pub fn new(t: T) -> (lock: Self)
        ensures
            lock@ == MutexState::unlocked(t),
    {
        Mutex::starting_at(t, FIRST_LOCK_ID)
    }

    /// A free lock around `t` whose identifier counter stands at `lock_index`.
    pub fn starting_at(t: T, lock_index: usize) -> (lock: Self)
        ensures
            lock@ == (MutexState { lock_index, ..MutexState::unlocked(t) }),
    {
        Mutex { data: t, lock_index, current_lock_id: 0, waiter_list: None }
    }

    /// Draws the next identifier from the counter, passing over zero.
    fn next_lock_id(&mut self) -> (lock_id: usize)
        ensures
            lock_id == old(self)@.fresh_id(),
            lock_id != 0,
            final(self)@ == (MutexState { lock_index: wrapping_succ(lock_id), ..old(self)@ }),
    {
        let mut lock_id: usize = 0;
        while lock_id == 0
            invariant
                self@ == (MutexState { lock_index: self@.lock_index, ..old(self)@ }),
                lock_id == 0 ==> self@.fresh_id() == old(self)@.fresh_id(),
                lock_id != 0 ==> lock_id == old(self)@.fresh_id() && self@.lock_index
                    == wrapping_succ(lock_id),
            decreases
                    (if lock_id != 0 {
                        0int
                    } else if self@.lock_index != 0 {
                        1int
                    } else {
                        2int
                    }),
        {
            lock_id = self.lock_index;
            self.lock_index = if lock_id == usize::MAX {
                0
            } else {
                lock_id + 1
            };
        }
        lock_id
    }

    /// Attempts to take the lock without suspending: one indivisible step. A
    /// fresh identifier is drawn; if the lock is free the attempt holds it at
    /// once, otherwise the attempt is handed back to be polled.
    pub fn lock(&mut self) -> (r: Result<MutexGuard, MutexAcquire>)
        ensures
            final(self)@ == old(self)@.lock(),
            match r {
                Ok(guard) => old(self)@.is_free() && guard.id() == old(self)@.fresh_id(),
                Err(acquire) => !old(self)@.is_free() && acquire.id() == old(self)@.fresh_id(),
            },
    {
        let lock_id = self.next_lock_id();
        if self.current_lock_id == 0 {
            self.current_lock_id = lock_id;
            Ok(MutexGuard { lock_id })
        } else {
            Err(MutexAcquire { lock_id })
        }
    }

    /// The identifier of the holder, or zero while the lock is free.
    pub fn current_lock_id(&self) -> (id: usize)
        ensures
            id == self@.holder,
    {
        self.current_lock_id
    }

    /// The counter from which the next identifier is drawn.
    pub fn lock_index(&self) -> (index: usize)
        ensures
            index == self@.lock_index,
    {
        self.lock_index
    }
}

} // verus!
