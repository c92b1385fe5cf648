use coop_sync::sync::{Mutex, MutexAcquire, MutexGuard};
use coop_sync::task::{wake_all, Poll};
use std::collections::VecDeque;
use std::sync::{Arc, Mutex as StdMutex};
use std::task::{Wake, Waker};

/// A wake handle that writes the number of its task at the end of a queue.
struct TaskHandle {
    task: usize,
    queue: Arc<StdMutex<VecDeque<usize>>>,
}

impl Wake for TaskHandle {
    fn wake(self: Arc<Self>) {
        self.queue.lock().unwrap().push_back(self.task);
    }
}

fn queue() -> Arc<StdMutex<VecDeque<usize>>> {
    Arc::new(StdMutex::new(VecDeque::new()))
}

fn handle(task: usize, queue: &Arc<StdMutex<VecDeque<usize>>>) -> Waker {
    Waker::from(Arc::new(TaskHandle { task, queue: queue.clone() }))
}

fn woken(queue: &Arc<StdMutex<VecDeque<usize>>>) -> Vec<usize> {
    queue.lock().unwrap().iter().copied().collect()
}

fn granted(r: Result<MutexGuard, MutexAcquire>) -> MutexGuard {
    match r {
        Ok(guard) => guard,
        Err(_) => panic!("the lock was taken"),
    }
}

fn refused(r: Result<MutexGuard, MutexAcquire>) -> MutexAcquire {
    match r {
        Ok(_) => panic!("the lock was free"),
        Err(acquire) => acquire,
    }
}

fn ready(r: Poll<MutexGuard>) -> MutexGuard {
    match r {
        Poll::Ready(guard) => guard,
        Poll::Pending => panic!("the attempt is pending"),
    }
}

fn is_pending(r: Poll<MutexGuard>) -> bool {
    matches!(r, Poll::Pending)
}

#[test]
fn a_new_mutex_is_free_and_holds_its_value() {
    let mut lock = Mutex::new(41u32);
    assert_eq!(lock.current_lock_id(), 0);
    assert_eq!(lock.lock_index(), 1000);
    let guard = granted(lock.lock());
    assert_eq!(*guard.access(&lock), 41);
    assert!(guard.release(&mut lock).is_empty());
}

#[test]
fn lock_draws_identifiers_in_sequence() {
    let mut lock = Mutex::new(());
    let first = granted(lock.lock());
    assert_eq!(first.lock_id(), 1000);
    assert_eq!(lock.current_lock_id(), 1000);
    assert_eq!(lock.lock_index(), 1001);

    let second = refused(lock.lock());
    assert_eq!(second.lock_id(), 1001);
    assert_eq!(lock.current_lock_id(), 1000);
    assert_eq!(lock.lock_index(), 1002);

    first.unlock(&mut lock);
    assert_eq!(lock.current_lock_id(), 0);
    let third = granted(lock.lock());
    assert_eq!(third.lock_id(), 1002);
    assert_eq!(lock.current_lock_id(), 1002);
}

#[test]
fn lock_identifiers_wrap_past_zero() {
    let mut lock = Mutex::starting_at((), usize::MAX);
    let last = granted(lock.lock());
    assert_eq!(last.lock_id(), usize::MAX);
    assert_eq!(lock.lock_index(), 0);

    let next = refused(lock.lock());
    assert_eq!(next.lock_id(), 1);
    assert_eq!(lock.lock_index(), 2);

    let mut lock = Mutex::starting_at((), 0);
    let first = granted(lock.lock());
    assert_eq!(first.lock_id(), 1);
    assert_eq!(lock.current_lock_id(), 1);
    assert_eq!(lock.lock_index(), 2);
}

#[test]
fn at_most_one_guard_at_a_time() {
    let wakes = queue();
    let mut lock = Mutex::new(0u32);
    let guard = granted(lock.lock());

    let mut attempts = Vec::new();
    for task in 0..4 {
        let attempt = refused(lock.lock());
        assert!(is_pending(attempt.poll(&mut lock, handle(task, &wakes))));
        assert_eq!(lock.current_lock_id(), guard.lock_id());
        attempts.push(attempt);
    }

    guard.unlock(&mut lock);
    assert_eq!(lock.current_lock_id(), 0);

    let winner = ready(attempts[2].poll(&mut lock, handle(2, &wakes)));
    assert_eq!(lock.current_lock_id(), winner.lock_id());
    assert_eq!(winner.lock_id(), attempts[2].lock_id());
    for task in [0, 1, 3] {
        assert!(is_pending(attempts[task].poll(&mut lock, handle(task, &wakes))));
        assert_eq!(lock.current_lock_id(), winner.lock_id());
    }
    assert!(lock.lock().is_err());
}

#[test]
fn a_poll_on_a_free_lock_takes_it_and_enqueues_nothing() {
    let wakes = queue();
    let mut lock = Mutex::new(());
    let guard = granted(lock.lock());
    let attempt = refused(lock.lock());
    assert!(guard.release(&mut lock).is_empty());

    let guard = ready(attempt.poll(&mut lock, handle(7, &wakes)));
    assert_eq!(guard.lock_id(), attempt.lock_id());
    assert!(guard.release(&mut lock).is_empty());
    assert!(woken(&wakes).is_empty());
}

#[test]
fn release_hands_out_the_waiters_oldest_first() {
    let wakes = queue();
    let mut lock = Mutex::new(());
    let guard = granted(lock.lock());

    let handles: Vec<Waker> = (0..3).map(|task| handle(task, &wakes)).collect();
    for waker in &handles {
        let attempt = refused(lock.lock());
        assert!(is_pending(attempt.poll(&mut lock, waker.clone())));
    }

    let detached = guard.release(&mut lock);
    assert_eq!(detached.len(), 3);
    for (position, waker) in detached.iter().enumerate() {
        assert!(waker.will_wake(&handles[position]));
    }
    assert!(woken(&wakes).is_empty());
    wake_all(detached);
    assert_eq!(woken(&wakes), vec![0, 1, 2]);
}

#[test]
fn unlock_wakes_the_waiters_in_order_of_arrival() {
    let wakes = queue();
    let mut lock = Mutex::new(());
    let guard = granted(lock.lock());

    for task in [5, 3, 9, 3] {
        let attempt = refused(lock.lock());
        assert!(is_pending(attempt.poll(&mut lock, handle(task, &wakes))));
    }
    assert!(woken(&wakes).is_empty());

    guard.unlock(&mut lock);
    assert_eq!(woken(&wakes), vec![5, 3, 9, 3]);
}

#[test]
fn waiters_after_a_release_belong_to_the_next_holder() {
    let wakes = queue();
    let mut lock = Mutex::new(());
    let first = granted(lock.lock());
    let a = refused(lock.lock());
    assert!(is_pending(a.poll(&mut lock, handle(1, &wakes))));
    first.unlock(&mut lock);
    assert_eq!(woken(&wakes), vec![1]);

    let second = ready(a.poll(&mut lock, handle(1, &wakes)));
    let b = refused(lock.lock());
    assert!(is_pending(b.poll(&mut lock, handle(2, &wakes))));
    let c = refused(lock.lock());
    assert!(is_pending(c.poll(&mut lock, handle(3, &wakes))));
    second.unlock(&mut lock);
    assert_eq!(woken(&wakes), vec![1, 2, 3]);

    let third = granted(lock.lock());
    third.unlock(&mut lock);
    assert_eq!(woken(&wakes), vec![1, 2, 3]);
}

#[test]
fn an_attempt_that_is_polled_twice_is_woken_twice() {
    let wakes = queue();
    let mut lock = Mutex::new(());
    let guard = granted(lock.lock());
    let attempt = refused(lock.lock());
    assert!(is_pending(attempt.poll(&mut lock, handle(4, &wakes))));
    assert!(is_pending(attempt.poll(&mut lock, handle(4, &wakes))));
    guard.unlock(&mut lock);
    assert_eq!(woken(&wakes), vec![4, 4]);
}

#[test]
fn an_attempt_that_was_given_up_is_still_woken() {
    let wakes = queue();
    let mut lock = Mutex::new(());
    let guard = granted(lock.lock());
    let kept = refused(lock.lock());
    let given_up = refused(lock.lock());
    assert!(is_pending(given_up.poll(&mut lock, handle(1, &wakes))));
    assert!(is_pending(kept.poll(&mut lock, handle(2, &wakes))));
    drop(given_up);

    guard.unlock(&mut lock);
    assert_eq!(woken(&wakes), vec![1, 2]);
    let guard = ready(kept.poll(&mut lock, handle(2, &wakes)));
    assert!(guard.release(&mut lock).is_empty());
}

#[test]
fn the_guard_gives_access_to_the_value() {
    let mut lock = Mutex::new(String::from("a"));
    let guard = granted(lock.lock());
    guard.access_mut(&mut lock).push('b');
    assert_eq!(guard.access(&lock), "ab");
    *guard.access_mut(&mut lock) = String::from("c");
    assert_eq!(lock.current_lock_id(), guard.lock_id());
    guard.unlock(&mut lock);

    let guard = granted(lock.lock());
    assert_eq!(guard.access(&lock), "c");
    guard.unlock(&mut lock);
}

#[test]
fn two_acquirers_count_to_two() {
    let wakes = queue();
    let mut lock = Mutex::new(0u32);
    let mut seen = Vec::new();

    let first = granted(lock.lock());
    let second = refused(lock.lock());
    assert!(is_pending(second.poll(&mut lock, handle(2, &wakes))));

    seen.push(*first.access(&lock));
    *first.access_mut(&mut lock) += 1;
    seen.push(*first.access(&lock));
    first.unlock(&mut lock);
    assert_eq!(woken(&wakes), vec![2]);

    let guard = ready(second.poll(&mut lock, handle(2, &wakes)));
    seen.push(*guard.access(&lock));
    *guard.access_mut(&mut lock) += 1;
    seen.push(*guard.access(&lock));
    guard.unlock(&mut lock);

    assert_eq!(seen, vec![0, 1, 1, 2]);
    let guard = granted(lock.lock());
    assert_eq!(*guard.access(&lock), 2);
    guard.unlock(&mut lock);
}

/// The value that the tasks of the schedules below share.
struct Shared {
    inside: usize,
    entries: usize,
    log: Vec<String>,
}

enum Phase {
    Idle,
    Attempting(MutexAcquire),
    Suspended(MutexAcquire),
    Holding(MutexGuard),
}

/// Enters the critical section: nobody else may be inside.
fn enter(lock: &mut Mutex<Shared>, guard: &MutexGuard, flag: &str) {
    let shared = guard.access_mut(lock);
    assert_eq!(shared.inside, 0);
    shared.inside += 1;
    shared.log.push(format!("{} start", flag));
}

/// Leaves the critical section: nobody else may have come in.
fn leave(lock: &mut Mutex<Shared>, guard: &MutexGuard, flag: &str) {
    let shared = guard.access_mut(lock);
    assert_eq!(shared.inside, 1);
    shared.entries += 1;
    shared.log.push(format!("{} end", flag));
    shared.inside -= 1;
}

/// Runs `tasks` tasks that each pass `rounds` times through the critical
/// section. A task enters the critical section in the turn in which it is
/// granted the lock and leaves it in its next turn, so that the others find
/// the lock taken in between. The scheduler serves the tasks in the order in
/// which they became ready to run; a suspended task becomes ready when its
/// handle is invoked. Returns the protected value and the number of turns
/// that the tasks took.
fn run_tasks(tasks: usize, rounds: usize) -> (Shared, usize) {
    let ready = queue();
    let mut lock = Mutex::new(Shared { inside: 0, entries: 0, log: Vec::new() });
    let mut phases: Vec<Phase> = (0..tasks).map(|_| Phase::Idle).collect();
    let mut round = vec![0usize; tasks];
    let mut turns = 0;
    if rounds > 0 {
        ready.lock().unwrap().extend(0..tasks);
    }

    loop {
        let next = ready.lock().unwrap().pop_front();
        let Some(task) = next else { break };
        turns += 1;
        let flag = format!("[thread-{}] {}: ", task, round[task]);
        let phase = std::mem::replace(&mut phases[task], Phase::Idle);
        phases[task] = match phase {
            Phase::Idle => match lock.lock() {
                Ok(guard) => {
                    enter(&mut lock, &guard, &flag);
                    ready.lock().unwrap().push_back(task);
                    Phase::Holding(guard)
                }
                Err(attempt) => {
                    ready.lock().unwrap().push_back(task);
                    Phase::Attempting(attempt)
                }
            },
            Phase::Attempting(attempt) | Phase::Suspended(attempt) => {
                match attempt.poll(&mut lock, handle(task, &ready)) {
                    Poll::Ready(guard) => {
                        enter(&mut lock, &guard, &flag);
                        ready.lock().unwrap().push_back(task);
                        Phase::Holding(guard)
                    }
                    Poll::Pending => Phase::Suspended(attempt),
                }
            }
            Phase::Holding(guard) => {
                assert_eq!(lock.current_lock_id(), guard.lock_id());
                leave(&mut lock, &guard, &flag);
                guard.unlock(&mut lock);
                round[task] += 1;
                if round[task] < rounds {
                    ready.lock().unwrap().push_back(task);
                }
                Phase::Idle
            }
        };
    }

    assert_eq!(lock.current_lock_id(), 0);
    for task in 0..tasks {
        assert!(matches!(phases[task], Phase::Idle));
        assert_eq!(round[task], rounds);
    }
    let guard = granted(lock.lock());
    let shared = std::mem::replace(
        guard.access_mut(&mut lock),
        Shared { inside: 0, entries: 0, log: Vec::new() },
    );
    guard.unlock(&mut lock);
    (shared, turns)
}

#[test]
fn five_tasks_take_three_turns_each() {
    let (shared, _) = run_tasks(5, 3);
    assert_eq!(shared.entries, 15);
    assert_eq!(shared.log.len(), 30);
    for pair in shared.log.chunks(2) {
        println!("{}", pair[0]);
        println!("{}", pair[1]);
        assert_eq!(pair[0].strip_suffix(" start"), pair[1].strip_suffix(" end"));
    }
    assert_eq!(shared.log[0], "[thread-0] 0:  start");
}

#[test]
fn every_task_gets_through_within_the_bound() {
    for tasks in 0..6 {
        for rounds in 0..5 {
            let (shared, turns) = run_tasks(tasks, rounds);
            assert_eq!(shared.entries, tasks * rounds);
            assert_eq!(shared.inside, 0);
            assert!(turns <= tasks * (rounds * (tasks + 3) + 3));
        }
    }
}

#[test]
fn critical_sections_never_overlap() {
    let (shared, _) = run_tasks(4, 4);
    assert_eq!(shared.log.len(), 32);
    for pair in shared.log.chunks(2) {
        assert!(pair[0].ends_with(" start"));
        assert!(pair[1].ends_with(" end"));
        assert_eq!(pair[0].strip_suffix(" start"), pair[1].strip_suffix(" end"));
    }
}
