//! Primitives that coordinate tasks.

pub mod atomic_object;
pub mod mutex;
pub mod schedule;
pub mod workload;

pub use atomic_object::AtomicObject;
pub use mutex::{Mutex, MutexAcquire, MutexGuard, MutexState};
