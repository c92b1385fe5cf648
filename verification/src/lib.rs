//! Cooperative synchronisation primitives and a few byte utilities.
//!
//! The two primitives, [`sync::Mutex`] and [`context::Context`], are written as
//! state machines: every method is one indivisible step on the shared state,
//! and the embedding program serialises the steps. What a step decides is
//! stated in its contract, over the mathematical state of the primitive; what
//! holds under every schedule of steps is proved in the `schedule` and
//! `workload` modules. The scheduler is met only through wake handles.
//!
//! The utilities are [`binary::BigEndian`], [`hex::Dump`],
//! [`mem::LoopReader`] and [`sync::AtomicObject`].

pub mod binary;
pub mod context;
pub mod hex;
pub mod mem;
pub mod sync;
pub mod task;
