//! What holds of a mutex under every schedule: whatever steps the tasks take,
//! and in whatever order, at most one of them holds a guard, no waiter is left
//! behind on a free lock, and a release wakes its waiters in order of arrival.

use crate::sync::mutex::MutexState;
use std::task::Waker;
use vstd::prelude::*;

verus! {

/// One step of one task on a mutex around a `T`.
pub enum Step<T> {
    /// A task attempts to take the lock.
    Lock,
    /// The attempt that drew `lock_id` is polled by a task with handle `waker`.
    Poll { lock_id: usize, waker: Waker },
    /// The task that owns the live guard at position `guard` replaces the
    /// protected value.
    Write { guard: int, value: T },
    /// The task that owns the live guard at position `guard` releases it.
    Release { guard: int },
}

/// A mutex together with the guards that are alive.
pub struct System<T> {
    /// The state of the mutex.
    pub lock: MutexState<T>,
    /// The identifier of every guard that was granted and not yet released.
    pub guards: Seq<usize>,
}

impl<T> System<T> {
    /// A new mutex around `value`, with no guard alive.
    pub open spec fn initial(value: T) -> Self {
        System { lock: MutexState::unlocked(value), guards: Seq::empty() }
    }

    /// Whether a task can take `step`: an attempt has a non-zero identifier,
    /// and only a live guard gives access or can be released.
    pub open spec fn enabled(self, step: Step<T>) -> bool {
        match step {
            Step::Lock => true,
            Step::Poll { lock_id, waker } => lock_id != 0,
            Step::Write { guard, value } => 0 <= guard < self.guards.len(),
            Step::Release { guard } => 0 <= guard < self.guards.len(),
        }
    }

    /// The system after `step`.
    pub open spec fn next(self, step: Step<T>) -> Self {
        match step {
            Step::Lock => System {
                lock: self.lock.lock(),
                guards: if self.lock.is_free() {
                    self.guards.push(self.lock.fresh_id())
                } else {
                    self.guards
                },
            },
            Step::Poll { lock_id, waker } => System {
                lock: self.lock.poll(lock_id, waker),
                guards: if self.lock.is_free() {
                    self.guards.push(lock_id)
                } else {
                    self.guards
                },
            },
            Step::Write { guard, value } => System {
                lock: self.lock.with_value(value),
                guards: self.guards,
            },
            Step::Release { guard } => System {
                lock: self.lock.release(),
                guards: self.guards.remove(guard),
            },
        }
    }

    /// The system after `steps`, taken first to last; a step that is not
    /// enabled when its turn comes is passed over.
    pub open spec fn run(self, steps: Seq<Step<T>>) -> Self
        decreases steps.len(),
    {
        if steps.len() == 0 {
            self
        } else {
            let before = self.run(steps.drop_last());
            if before.enabled(steps.last()) {
                before.next(steps.last())
            } else {
                before
            }
        }
    }

    /// At most one guard is alive; one is alive exactly while the lock is
    /// held, and it carries the holder's identifier.
    pub open spec fn exclusive(self) -> bool {
        &&& self.guards.len() <= 1
        &&& self.guards.len() == 0 <==> self.lock.is_free()
        &&& forall|i: int| 0 <= i < self.guards.len() ==> self.guards[i] == self.lock.holder
    }

    /// Tasks wait only while the lock is held, so that the holder's release
    /// finds all of them.
    pub open spec fn attended(self) -> bool {
        self.lock.waiters.len() > 0 ==> !self.lock.is_free()
    }
}

/// A step keeps a system exclusive and attended.
pub proof fn lemma_step_preserves<T>(system: System<T>, step: Step<T>)
    requires
        system.exclusive(),
        system.attended(),
        system.enabled(step),
    ensures
        system.next(step).exclusive(),
        system.next(step).attended(),
{
}

/// Mutual exclusion: under every schedule at most one guard is alive, and
/// every live guard carries the holder's identifier, so that a release never
/// meets another identifier in the lock word.
pub proof fn lemma_mutual_exclusion<T>(value: T, steps: Seq<Step<T>>)
    ensures
        System::initial(value).run(steps).exclusive(),
        System::initial(value).run(steps).guards.len() <= 1,
{
    lemma_reachable(value, steps);
}

/// No lost wake-up: under every schedule a task waits only while the lock is
/// held, and the release that frees the lock takes the whole waiter list.
pub proof fn lemma_no_waiter_left_behind<T>(value: T, steps: Seq<Step<T>>)
    ensures
        System::initial(value).run(steps).attended(),
        System::initial(value).run(steps).lock.release().waiters.len() == 0,
{
    lemma_reachable(value, steps);
}

proof fn lemma_reachable<T>(value: T, steps: Seq<Step<T>>)
    ensures
        System::initial(value).run(steps).exclusive(),
        System::initial(value).run(steps).attended(),
    decreases steps.len(),
{
    if steps.len() > 0 {
        lemma_reachable(value, steps.drop_last());
        let before = System::initial(value).run(steps.drop_last());
        if before.enabled(steps.last()) {
            lemma_step_preserves(before, steps.last());
        }
    }
}

/// The state after the attempts in `polls` were polled, first to last, each
/// with its identifier and the handle of its task.
pub open spec fn poll_all<T>(state: MutexState<T>, polls: Seq<(usize, Waker)>) -> MutexState<T>
    decreases polls.len(),
{
    if polls.len() == 0 {
        state
    } else {
        poll_all(state, polls.drop_last()).poll(polls.last().0, polls.last().1)
    }
}

/// The handles of `polls`, in the order of the polls.
pub open spec fn handles_of(polls: Seq<(usize, Waker)>) -> Seq<Waker> {
    Seq::new(polls.len(), |i: int| polls[i].1)
}

/// Release-order fairness: the attempts that are polled while the lock is
/// held all suspend, and the release that follows wakes them in the order of
/// their polls, after the waiters that were there before them.
pub proof fn lemma_release_order<T>(state: MutexState<T>, polls: Seq<(usize, Waker)>)
    requires
        !state.is_free(),
    ensures
        poll_all(state, polls).holder == state.holder,
        poll_all(state, polls).woken_by_release() == state.waiters + handles_of(polls),
        forall|i: int|
            0 <= i < polls.len() ==> poll_all(state, polls).woken_by_release()[state.waiters.len()
                + i] == (#[trigger] polls[i]).1,
    decreases polls.len(),
{
    if polls.len() > 0 {
        lemma_release_order(state, polls.drop_last());
        assert(handles_of(polls) =~= handles_of(polls.drop_last()).push(polls.last().1));
    }
    assert(poll_all(state, polls).waiters =~= state.waiters + handles_of(polls));
}

/// A release detaches a snapshot: it leaves a free lock and an empty list.
/// The attempt that is polled next takes the lock, and those polled after it
/// wait for its release, not for the one that has passed.
pub proof fn lemma_release_snapshot<T>(
    state: MutexState<T>,
    lock_id: usize,
    waker: Waker,
    polls: Seq<(usize, Waker)>,
)
    requires
        lock_id != 0,
    ensures
        state.release().is_free(),
        state.release().woken_by_release() == Seq::<Waker>::empty(),
        state.release().poll(lock_id, waker).holder == lock_id,
        poll_all(state.release().poll(lock_id, waker), polls).woken_by_release() == handles_of(
            polls,
        ),
{
    let next = state.release().poll(lock_id, waker);
    lemma_release_order(next, polls);
    assert(next.waiters + handles_of(polls) =~= handles_of(polls));
}

/// Lock identifiers are never zero, and an attempt never draws the
/// identifier of the attempt before it. Nothing more is promised: after the
/// counter has wrapped, an identifier can come back.
pub proof fn lemma_lock_ids<T>(state: MutexState<T>)
    ensures
        state.fresh_id() != 0,
        state.lock().fresh_id() != 0,
        state.lock().fresh_id() != state.fresh_id(),
        state.fresh_id() < usize::MAX ==> state.lock().fresh_id() == state.fresh_id() + 1,
{
}

} // verus!
