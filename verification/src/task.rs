//! Wake handles: the only contact between the primitives and the scheduler.

use std::task::Waker;
use vstd::prelude::*;

verus! {

/// `std::task::Waker`, carried through the library as an opaque value.
#[verifier::external_type_specification]
#[verifier::external_body]
pub struct ExWaker(Waker);

/// Result of a suspend check.
pub enum Poll<T> {
    /// The operation has completed with this value.
    Ready(T),
    /// The task must suspend until its wake handle is invoked.
    Pending,
}

/// Calls `Waker::wake`, which consumes the handle and asks the scheduler to
/// poll its task again. Nothing is claimed about the effect; the call is
/// taken to return, as a scheduler's handle must.
#[verifier::external_body]
fn wake(handle: Waker) {
    handle.wake()
}

/// Calls `Waker::will_wake`. The answer is best effort: `true` means that both
/// handles wake the same task, `false` means nothing, so nothing is claimed.
#[verifier::external_body]
pub(crate) fn will_wake(handle: &Waker, other: &Waker) -> (same: bool) {
    handle.will_wake(other)
}

/// Invokes every handle once, first to last.
pub fn wake_all(handles: Vec<Waker>) {
    for handle in handles {
        wake(handle);
    }
}

} // verus!
