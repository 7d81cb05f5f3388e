//! The first user task and the processor it belongs to.
//!
//! The first user task is only ever placed on the bootstrap processor.  A freestanding build halts
//! before a placement that would break this; a hosted build makes it.  The placements of this
//! library are those of a hosted build, and the functions here say which of them a freestanding
//! build halts on.
use vstd::prelude::*;

use crate::ids::{CpuId, ThreadId, BOOTSTRAP_CPU_ID, FIRST_USER_TID, IDLE_TID};
use crate::kernel::Kernel;
use crate::runtime::dispatch::OwnerRevalidationSelection;
use crate::runtime::SharedKernel;
use crate::scheduler::Sched;
use crate::task::{TaskStatus, Tasks};

verus! {

/// Is this the first user task, away from the bootstrap processor?
pub open spec fn off_pin(cpu: CpuId, tid: u64) -> bool {
    tid == FIRST_USER_TID && cpu.0 != BOOTSTRAP_CPU_ID
}

impl Sched {
    /// Is the first user task queued and current on the bootstrap processor only?
    pub open spec fn first_user_pinned(self) -> bool {
        &&& forall|i: int|
            0 <= i < self.queue.len() ==> !off_pin(
                (#[trigger] self.queue[i]).cpu,
                self.queue[i].tid,
            )
        &&& forall|c: int|
            0 <= c < self.cpus.len() && (#[trigger] self.cpus[c]).current == Some(FIRST_USER_TID)
                ==> c == BOOTSTRAP_CPU_ID
    }
}

impl Tasks {
    /// Is the bootstrap processor the home of the first user task?
    pub open spec fn first_user_at_home(self) -> bool {
        self.find(FIRST_USER_TID) matches Some(tcb) ==> tcb.cpu_affinity == Some(
            CpuId(BOOTSTRAP_CPU_ID),
        )
    }
}

impl Kernel {
    /// Does the first user task have its home on the bootstrap processor, and is it nowhere else?
    pub open spec fn first_user_pinned(self) -> bool {
        self.sched.first_user_pinned() && self.tasks.first_user_at_home()
    }

    /// Does placing `tid` on `cpu` put the first user task elsewhere?  A processor that is not
    /// online, and a task that may not be queued, are refused before that.
    pub open spec fn placement_breaks_pin(self, cpu: CpuId, tid: u64) -> bool {
        off_pin(cpu, tid) && self.sched.admits(cpu) is Ok && self.tasks.enqueue_policy(tid) is Ok
    }

    /// Does waking `tid` from `cpu` put the first user task elsewhere?
    pub open spec fn wake_breaks_pin(self, cpu: CpuId, tid: u64) -> bool {
        match self.tasks.find(tid) {
            None => false,
            Some(tcb) => {
                &&& tcb.status.spec_live()
                &&& tid == IDLE_TID || tcb.class is Some
                &&& !self.runs_on(cpu, tid)
                &&& !tcb.spawn_reservation
                &&& off_pin(self.wake_target(tcb), tid)
            },
        }
    }

    /// Does taking back the selection of `tid` on `cpu` put the first user task elsewhere?
    pub open spec fn rollback_breaks_pin(self, cpu: CpuId, tid: u64, restorable: bool) -> bool {
        restorable && off_pin(cpu, tid) && self.tasks.find(tid) is Some
            && self.tasks.enqueue_policy(tid) is Ok
    }
}

impl SharedKernel {
    /// Whether a freestanding build halts when `tid` is placed on `cpu`.
    pub fn placement_breaks_pin_split_read(&self, cpu: CpuId, tid: u64) -> (r: bool)
        ensures
            r == self@.placement_breaks_pin(cpu, tid),
    {
        tid == FIRST_USER_TID && cpu.0 != BOOTSTRAP_CPU_ID
            && self.state.sched.validate_online_cpu(cpu).is_ok()
            && self.state.tasks.enqueue_policy(tid).is_ok()
    }

    /// Whether a freestanding build halts when `tid` is woken from `cpu`.
    pub fn wake_breaks_pin_split_read(&self, cpu: CpuId, tid: ThreadId) -> (r: bool)
        ensures
            r == self@.wake_breaks_pin(cpu, tid.0),
    {
        let tcb = match self.state.tasks.get(tid.0) {
            None => {
                return false;
            },
            Some(tcb) => tcb,
        };
        if !tcb.status.live() || (tid.0 != IDLE_TID && tcb.class.is_none()) {
            return false;
        }
        let running = matches!(tcb.status, TaskStatus::Running);
        if running && self.state.sched.current_tid_on(cpu) == Some(tid.0) {
            return false;
        }
        let target = match tcb.cpu_affinity {
            Some(pinned) => pinned,
            None => self.state.sched.current_cpu,
        };
        !tcb.spawn_reservation && tid.0 == FIRST_USER_TID && target.0 != BOOTSTRAP_CPU_ID
    }

    /// Whether a freestanding build halts when `selection` is taken back.
    pub fn rollback_breaks_pin_split_read(
        &self,
        selection: OwnerRevalidationSelection,
        restorable: bool,
    ) -> (r: bool)
        ensures
            r == self@.rollback_breaks_pin(selection.cpu, selection.tid, restorable),
    {
        restorable && selection.tid == FIRST_USER_TID && selection.cpu.0 != BOOTSTRAP_CPU_ID
            && self.state.tasks.get(selection.tid).is_some()
            && self.state.tasks.enqueue_policy(selection.tid).is_ok()
    }
}

} // verus!
