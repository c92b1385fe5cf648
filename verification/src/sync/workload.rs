//! Liveness of the mutex: tasks that each take the lock a number of times,
//! change the protected value and release the lock all get through, under
//! every schedule that keeps running the tasks that can run, and none of
//! their changes is lost. A task can run unless it is suspended, and a
//! suspended task can run again once a release has handed out its wake
//! handle.

use crate::sync::mutex::MutexState;
use std::task::Waker;
use vstd::prelude::*;

verus! {

/// Where a task stands in its loop.
pub enum Phase {
    /// Outside the critical section, with no attempt under way.
    Idle,
    /// With an attempt that is due to be polled: the attempt was just made,
    /// or the task was woken.
    Attempting { lock_id: usize },
    /// Suspended on an attempt, until a release hands out the task's handle.
    Suspended { lock_id: usize },
    /// Inside the critical section.
    Holding { lock_id: usize },
}

/// One task of a workload.
pub struct Task {
    /// The handle that wakes the task.
    pub handle: Waker,
    /// How many times the task has still to go through the critical section.
    pub remaining: nat,
    /// Where the task stands.
    pub phase: Phase,
}

impl Task {
    /// Whether the scheduler can let the task take a step.
    pub open spec fn runnable(self) -> bool {
        match self.phase {
            Phase::Idle => self.remaining > 0,
            Phase::Attempting { lock_id } => true,
            Phase::Suspended { lock_id } => false,
            Phase::Holding { lock_id } => true,
        }
    }

    /// Whether the task has gone through the critical section as often as it
    /// had to.
    pub open spec fn finished(self) -> bool {
        self.phase is Idle && self.remaining == 0
    }

    /// The task after a release that detached `woken`: a suspended task whose
    /// handle is among them is due to be polled again.
    pub open spec fn after_wake(self, woken: Seq<Waker>) -> Task {
        match self.phase {
            Phase::Suspended { lock_id } if woken.contains(self.handle) => Task {
                phase: Phase::Attempting { lock_id },
                ..self
            },
            _ => self,
        }
    }

    /// An upper bound on the steps that the task and those that it wakes can
    /// still take, among `tasks` tasks: a pass through the critical section
    /// takes three steps of the task itself, and its release may cost each of
    /// the others one more poll.
    pub open spec fn potential(self, tasks: nat) -> int {
        self.remaining * (tasks + 3) + match self.phase {
            Phase::Idle => 3int,
            Phase::Attempting { lock_id } => 2int,
            Phase::Suspended { lock_id } => 1int,
            Phase::Holding { lock_id } => 1int,
        }
    }
}

/// The sum of `costs`.
pub open spec fn sum(costs: Seq<int>) -> int
    decreases costs.len(),
{
    if costs.len() == 0 {
        0
    } else {
        sum(costs.drop_last()) + costs.last()
    }
}

/// The value after `update` was applied `n` times to `value`.
pub open spec fn repeated<T>(update: spec_fn(T) -> T, n: nat, value: T) -> T
    decreases n,
{
    if n == 0 {
        value
    } else {
        update(repeated(update, (n - 1) as nat, value))
    }
}

/// A mutex and the tasks that work on it.
#[verifier::reject_recursive_types(T)]
pub struct Workload<T> {
    /// The state of the mutex.
    pub lock: MutexState<T>,
    /// The tasks.
    pub tasks: Seq<Task>,
    /// What a task does to the protected value in the critical section.
    pub update: spec_fn(T) -> T,
    /// How many times the critical section has been passed.
    pub completed: nat,
}

impl<T> Workload<T> {
    /// A new mutex around `value` and one idle task for each handle, each
    /// with `rounds` passes through the critical section before it.
    pub open spec fn start(
        value: T,
        update: spec_fn(T) -> T,
        handles: Seq<Waker>,
        rounds: nat,
    ) -> Self {
        Workload {
            lock: MutexState::unlocked(value),
            tasks: Seq::new(
                handles.len(),
                |i: int| Task { handle: handles[i], remaining: rounds, phase: Phase::Idle },
            ),
            update,
            completed: 0,
        }
    }

    /// Whether the scheduler can pick task `t`.
    pub open spec fn runnable(self, t: int) -> bool {
        0 <= t < self.tasks.len() && self.tasks[t].runnable()
    }

    /// The workload after task `t` has taken its step: an idle task makes an
    /// attempt, an attempt is polled, and a holder changes the value and
    /// releases the lock, which wakes the waiters.
    pub open spec fn next(self, t: int) -> Self {
        let task = self.tasks[t];
        match task.phase {
            Phase::Idle => Workload {
                lock: self.lock.lock(),
                tasks: self.tasks.update(
                    t,
                    Task {
                        phase: if self.lock.is_free() {
                            Phase::Holding { lock_id: self.lock.fresh_id() }
                        } else {
                            Phase::Attempting { lock_id: self.lock.fresh_id() }
                        },
                        ..task
                    },
                ),
                ..self
            },
            Phase::Attempting { lock_id } => Workload {
                lock: self.lock.poll(lock_id, task.handle),
                tasks: self.tasks.update(
                    t,
                    Task {
                        phase: if self.lock.is_free() {
                            Phase::Holding { lock_id }
                        } else {
                            Phase::Suspended { lock_id }
                        },
                        ..task
                    },
                ),
                ..self
            },
            Phase::Suspended { lock_id } => self,
            Phase::Holding { lock_id } => Workload {
                lock: self.lock.with_value((self.update)(self.lock.value)).release(),
                tasks: Seq::new(
                    self.tasks.len(),
                    |i: int|
                        if i == t {
                            Task {
                                remaining: (task.remaining - 1) as nat,
                                phase: Phase::Idle,
                                ..task
                            }
                        } else {
                            self.tasks[i].after_wake(self.lock.waiters)
                        },
                ),
                completed: self.completed + 1,
                ..self
            },
        }
    }

    /// The workload after the scheduler has made `picks`, first to last; a
    /// pick of a task that cannot run is passed over.
    pub open spec fn run(self, picks: Seq<int>) -> Self
        decreases picks.len(),
    {
        if picks.len() == 0 {
            self
        } else {
            let before = self.run(picks.drop_last());
            if before.runnable(picks.last()) {
                before.next(picks.last())
            } else {
                before
            }
        }
    }

    /// The number of steps that the tasks take under `picks`.
    pub open spec fn steps(self, picks: Seq<int>) -> nat
        decreases picks.len(),
    {
        if picks.len() == 0 {
            0
        } else {
            let before = self.run(picks.drop_last());
            self.steps(picks.drop_last()) + if before.runnable(picks.last()) {
                1nat
            } else {
                0nat
            }
        }
    }

    /// Whether every task has finished.
    pub open spec fn finished(self) -> bool {
        forall|i: int| 0 <= i < self.tasks.len() ==> (#[trigger] self.tasks[i]).finished()
    }

    /// The passes through the critical section that lie before each task.
    pub open spec fn remainders(self) -> Seq<int> {
        Seq::new(self.tasks.len(), |i: int| self.tasks[i].remaining as int)
    }

    /// The passes through the critical section that lie before the tasks.
    pub open spec fn outstanding(self) -> int {
        sum(self.remainders())
    }

    /// The potential of each task.
    pub open spec fn potentials(self) -> Seq<int> {
        Seq::new(self.tasks.len(), |i: int| self.tasks[i].potential(self.tasks.len()))
    }

    /// An upper bound on the steps that the tasks can still take.
    pub open spec fn potential(self) -> int {
        sum(self.potentials())
    }

    /// What holds of a workload at all times: the holder is one task, and the
    /// lock word names it; a task has an attempt only while it has passes
    /// before it; a suspended task has its handle in the waiter list; and
    /// tasks wait only while the lock is held.
    pub open spec fn sound(self) -> bool {
        &&& forall|i: int|
            0 <= i < self.tasks.len() ==> match (#[trigger] self.tasks[i]).phase {
                Phase::Idle => true,
                Phase::Attempting { lock_id } => lock_id != 0 && self.tasks[i].remaining > 0,
                Phase::Suspended { lock_id } => {
                    &&& lock_id != 0
                    &&& self.tasks[i].remaining > 0
                    &&& self.lock.waiters.contains(self.tasks[i].handle)
                },
                Phase::Holding { lock_id } => {
                    &&& lock_id != 0
                    &&& self.tasks[i].remaining > 0
                    &&& self.lock.holder == lock_id
                },
            }
        &&& forall|i: int, j: int|
            0 <= i < j < self.tasks.len() ==> !((#[trigger] self.tasks[i]).phase is Holding && (
            #[trigger] self.tasks[j]).phase is Holding)
        &&& !self.lock.is_free() ==> exists|i: int|
            0 <= i < self.tasks.len() && (#[trigger] self.tasks[i]).phase is Holding
        &&& self.lock.waiters.len() > 0 ==> !self.lock.is_free()
    }
}

/// Replacing one cost changes the sum by the difference.
proof fn lemma_sum_update(costs: Seq<int>, i: int, cost: int)
    requires
        0 <= i < costs.len(),
    ensures
        sum(costs.update(i, cost)) == sum(costs) - costs[i] + cost,
    decreases costs.len(),
{
    if i == costs.len() - 1 {
        assert(costs.update(i, cost).drop_last() =~= costs.drop_last());
    } else {
        lemma_sum_update(costs.drop_last(), i, cost);
        assert(costs.update(i, cost).drop_last() =~= costs.drop_last().update(i, cost));
    }
}

/// Costs that each grow by one at most grow by their number at most.
proof fn lemma_sum_grows_by_one_each(before: Seq<int>, after: Seq<int>)
    requires
        before.len() == after.len(),
        forall|i: int| 0 <= i < before.len() ==> after[i] <= before[i] + 1,
    ensures
        sum(after) <= sum(before) + before.len(),
    decreases before.len(),
{
    if before.len() > 0 {
        lemma_sum_grows_by_one_each(before.drop_last(), after.drop_last());
    }
}

/// Equal costs add up to their number times the cost.
proof fn lemma_sum_constant(costs: Seq<int>, cost: int)
    requires
        forall|i: int| 0 <= i < costs.len() ==> costs[i] == cost,
    ensures
        sum(costs) == costs.len() * cost,
    decreases costs.len(),
{
    if costs.len() > 0 {
        lemma_sum_constant(costs.drop_last(), cost);
        assert(costs.len() * cost == (costs.len() - 1) * cost + cost) by (nonlinear_arith);
    } else {
        assert(0 * cost == 0) by (nonlinear_arith);
    }
}

/// A step of a task keeps a workload sound.
pub proof fn lemma_step_keeps_sound<T>(w: Workload<T>, t: int)
    requires
        w.sound(),
        w.runnable(t),
    ensures
        w.next(t).sound(),
        w.next(t).tasks.len() == w.tasks.len(),
{
    let task = w.tasks[t];
    let after = w.next(t);
    if !w.lock.is_free() {
        let holder = choose|i: int|
            0 <= i < w.tasks.len() && (#[trigger] w.tasks[i]).phase is Holding;
        if task.phase is Holding {
            assert forall|i: int| 0 <= i < w.tasks.len() && i != t implies (
            #[trigger] w.tasks[i]).phase !is Holding by {
                if i < t {
                    assert(!(w.tasks[i].phase is Holding && w.tasks[t].phase is Holding));
                } else {
                    assert(!(w.tasks[t].phase is Holding && w.tasks[i].phase is Holding));
                }
            }
        } else {
            assert(after.tasks[holder].phase is Holding);
            if task.phase is Attempting {
                assert(after.lock.waiters.last() == task.handle);
                assert forall|i: int|
                    0 <= i < w.tasks.len() && w.tasks[i].phase
                        is Suspended implies after.lock.waiters.contains(
                    (#[trigger] w.tasks[i]).handle,
                ) by {
                    let k = choose|k: int|
                        0 <= k < w.lock.waiters.len() && w.lock.waiters[k] == w.tasks[i].handle;
                    assert(after.lock.waiters[k] == w.tasks[i].handle);
                }
            }
        }
    } else {
        assert(after.tasks[t].phase is Holding);
    }
}

/// A step of a task uses up potential, and potential never runs out below
/// zero: no schedule lets the tasks step for ever.
pub proof fn lemma_step_uses_potential<T>(w: Workload<T>, t: int)
    requires
        w.sound(),
        w.runnable(t),
    ensures
        w.next(t).potential() < w.potential(),
{
    let n = w.tasks.len();
    let task = w.tasks[t];
    let before = w.potentials();
    let after = w.next(t).potentials();
    match task.phase {
        Phase::Holding { lock_id } => {
            let r = task.remaining as int;
            let k = n + 3;
            assert(r * k == (r - 1) * k + k) by (nonlinear_arith);
            assert(after[t] == before[t] - n - 1);
            let level = after.update(t, before[t]);
            assert forall|i: int| 0 <= i < n implies level[i] <= before[i] + 1 by {
                if i != t {
                    assert(w.next(t).tasks[i] == w.tasks[i].after_wake(w.lock.waiters));
                }
            }
            lemma_sum_grows_by_one_each(before, level);
            lemma_sum_update(after, t, before[t]);
        },
        _ => {
            assert(after =~= before.update(t, after[t]));
            lemma_sum_update(before, t, after[t]);
        },
    }
}

/// Potential is never negative.
pub proof fn lemma_potential_not_negative<T>(w: Workload<T>)
    ensures
        w.potential() >= 0,
{
    let costs = w.potentials();
    assert forall|i: int| 0 <= i < costs.len() implies costs[i] >= 0 by {
        let r = w.tasks[i].remaining as int;
        let k = w.tasks.len() + 3;
        assert(r * k >= 0) by (nonlinear_arith)
            requires
                r >= 0,
                k >= 0,
        ;
    }
    lemma_sum_not_negative(costs);
}

/// Costs that are not negative have a sum that is not negative.
proof fn lemma_sum_not_negative(costs: Seq<int>)
    requires
        forall|i: int| 0 <= i < costs.len() ==> costs[i] >= 0,
    ensures
        sum(costs) >= 0,
    decreases costs.len(),
{
    if costs.len() > 0 {
        lemma_sum_not_negative(costs.drop_last());
    }
}

/// Every pass through the critical section is counted: what is completed and
/// what is outstanding add up to the same number before and after a step.
pub proof fn lemma_step_keeps_count<T>(w: Workload<T>, t: int)
    requires
        w.sound(),
        w.runnable(t),
    ensures
        w.next(t).completed + w.next(t).outstanding() == w.completed + w.outstanding(),
{
    let task = w.tasks[t];
    let before = w.remainders();
    let after = w.next(t).remainders();
    match task.phase {
        Phase::Holding { lock_id } => {
            assert(after =~= before.update(t, before[t] - 1)) by {
                assert forall|i: int| 0 <= i < before.len() && i != t implies after[i]
                    == before[i] by {
                    assert(w.next(t).tasks[i] == w.tasks[i].after_wake(w.lock.waiters));
                }
            }
            lemma_sum_update(before, t, before[t] - 1);
        },
        _ => {
            assert(after =~= before);
        },
    }
}

/// No change is lost: a step that passes the critical section applies the
/// update to the value that the pass before it left, and no other step
/// touches the value.
pub proof fn lemma_step_keeps_value<T>(w: Workload<T>, t: int, origin: T)
    requires
        w.runnable(t),
        w.lock.value == repeated(w.update, w.completed, origin),
    ensures
        w.next(t).update == w.update,
        w.next(t).completed >= w.completed,
        w.next(t).lock.value == repeated(w.update, w.next(t).completed, origin),
{
}

/// No deadlock and no lost wake-up: while a task has not finished, some task
/// can run. If all the others are suspended, the holder can: tasks wait only
/// while the lock is held, and its release will wake them.
pub proof fn lemma_progress<T>(w: Workload<T>)
    requires
        w.sound(),
        !w.finished(),
    ensures
        exists|t: int| w.runnable(t),
{
    let i = choose|i: int| 0 <= i < w.tasks.len() && !(#[trigger] w.tasks[i]).finished();
    if w.tasks[i].phase is Suspended {
        assert(w.lock.waiters.contains(w.tasks[i].handle));
        let h = choose|h: int| 0 <= h < w.tasks.len() && (#[trigger] w.tasks[h]).phase is Holding;
        assert(w.runnable(h));
    } else {
        assert(w.runnable(i));
    }
}

/// What every schedule keeps: from a sound start, under any picks, the
/// workload is sound; the steps taken and the potential left are within the
/// potential at the start; the passes completed and outstanding add up to
/// those at the start; and the value is the one at the start with the update
/// applied once for each pass since.
pub proof fn lemma_run<T>(start: Workload<T>, picks: Seq<int>)
    requires
        start.sound(),
    ensures
        start.run(picks).sound(),
        start.run(picks).tasks.len() == start.tasks.len(),
        start.run(picks).update == start.update,
        start.steps(picks) + start.run(picks).potential() <= start.potential(),
        start.run(picks).completed >= start.completed,
        start.run(picks).completed + start.run(picks).outstanding() == start.completed
            + start.outstanding(),
        start.run(picks).lock.value == repeated(
            start.update,
            (start.run(picks).completed - start.completed) as nat,
            start.lock.value,
        ),
    decreases picks.len(),
{
    if picks.len() > 0 {
        lemma_run(start, picks.drop_last());
        let before = start.run(picks.drop_last());
        if before.runnable(picks.last()) {
            lemma_step_keeps_sound(before, picks.last());
            lemma_step_uses_potential(before, picks.last());
            lemma_step_keeps_count(before, picks.last());
            let passed = (before.completed - start.completed) as nat;
            let shifted = Workload { completed: passed, ..before };
            assert(shifted.next(picks.last()).lock == before.next(picks.last()).lock);
            lemma_step_keeps_value(shifted, picks.last(), start.lock.value);
        }
    }
}

/// Liveness: let one task for each handle go `rounds` times through the
/// critical section of a new mutex, applying `update` to the value each time.
/// Then, whatever the scheduler picks, the tasks take a bounded number of
/// steps; while a task has not finished, some task can run; and once no task
/// can run, every task has finished, the critical section has been passed
/// once for each round of each task, no more and no less, and the value has
/// been updated as many times.
pub proof fn lemma_all_tasks_finish<T>(
    value: T,
    update: spec_fn(T) -> T,
    handles: Seq<Waker>,
    rounds: nat,
    picks: Seq<int>,
)
    ensures
        ({
            let start = Workload::start(value, update, handles, rounds);
            let end = start.run(picks);
            let tasks = handles.len();
            &&& start.steps(picks) <= tasks * (rounds * (tasks + 3) + 3)
            &&& end.completed <= tasks * rounds
            &&& end.lock.value == repeated(update, end.completed, value)
            &&& !end.finished() ==> exists|t: int| end.runnable(t)
            &&& (forall|t: int| !end.runnable(t)) ==> {
                &&& end.finished()
                &&& end.completed == tasks * rounds
                &&& end.lock.value == repeated(update, tasks * rounds, value)
            }
        }),
{
    let start = Workload::start(value, update, handles, rounds);
    let end = start.run(picks);
    let tasks = handles.len();
    lemma_sum_constant(start.potentials(), (rounds * (tasks + 3) + 3) as int);
    lemma_sum_constant(start.remainders(), rounds as int);
    lemma_run(start, picks);
    lemma_potential_not_negative(end);
    assert(end.outstanding() >= 0) by {
        lemma_sum_not_negative(end.remainders());
    }
    if !end.finished() {
        lemma_progress(end);
    }
    if forall|t: int| !end.runnable(t) {
        assert(end.finished());
        assert(end.outstanding() == 0) by {
            lemma_sum_constant(end.remainders(), 0);
        }
    }
}

} // verus!
