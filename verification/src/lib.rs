//! Run-time core of a small capability microkernel.
//!
//! `SharedKernel` owns one `KernelState`, which is divided into ranked domains
//! (scheduler, tasks, IPC, capabilities, address spaces, memory objects).  Every
//! operation is a transaction over those domains, and its contract says what it
//! returns and how each domain changes.
use vstd::prelude::*;

pub mod blkcache;
pub mod capability;
pub mod control;
pub mod deferred;
pub mod ids;
pub mod ipc;
pub mod kernel;
pub mod laws;
pub mod memory;
pub mod runtime;
pub mod scheduler;
pub mod seqs;
pub mod task;
pub mod trap;
pub mod vm;

verus! {

} // verus!
