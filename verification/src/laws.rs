//! What holds of the kernel as a whole: laws that relate several operations.
pub mod admitting;
pub mod answering;
pub mod breaks;
pub mod cache;
pub mod calls;
pub mod capabilities;
pub mod counting;
pub mod deadlines;
pub mod expiring;
pub mod granting;
pub mod handing;
pub mod judging;
pub mod mapping;
pub mod marking;
pub mod memory;
pub mod messages;
pub mod noticing;
pub mod pinning;
pub mod placing;
pub mod reading;
pub mod receiving;
pub mod refusing;
pub mod regions;
pub mod replies;
pub mod restoring;
pub mod resuming;
pub mod scanning;
pub mod scheduling;
pub mod serving;
pub mod sharing;
pub mod sleeping;
pub mod slots;
pub mod soundness;
pub mod stepping;
pub mod succeeding;
pub mod taking;
pub mod waiting;
pub mod waking;
