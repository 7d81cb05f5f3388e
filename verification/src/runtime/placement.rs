//! Placing tasks on processors.
use vstd::prelude::*;

use crate::ids::{map_scheduler_error, CpuId, KernelError, IDLE_TID};
use crate::kernel::Kernel;
use crate::runtime::SharedKernel;

verus! {

/// What a refused enqueue allows.
#[derive(Clone, Copy, Debug, PartialEq, Eq, Structural)]
pub enum EnqueueRefusalPolicy {
    /// Dispatch all the same: the task may be queued or current already.
    DispatchAnyway,
    /// Do not dispatch: there is nothing to select.
    Decline,
}

/// What enqueueing a task and dispatching came to.
#[derive(Clone, Copy, Debug, PartialEq, Eq)]
pub struct CpuEnqueueDispatch {
    pub enqueued: Result<(), KernelError>,
    /// The task made current, if any.
    pub selected: Option<u64>,
}

impl Kernel {
    /// Does a dispatch follow the attempt to queue `tid` on `cpu`?
    pub open spec fn dispatch_follows(self, cpu: CpuId, tid: u64, policy: EnqueueRefusalPolicy) -> bool {
        policy is DispatchAnyway || self.enqueue_verdict(cpu, tid) is Ok
    }
}

impl SharedKernel {
    /// Makes `cpu` the current processor and takes its current task off it.
    pub fn block_current_on_cpu_split(&mut self, cpu: CpuId) -> (r: Result<
        Option<u64>,
        KernelError,
    >)
        ensures
            match old(self)@.sched.admits(cpu) {
                Err(e) => r == Err::<Option<u64>, KernelError>(KernelError::Scheduler(e))
                    && final(self)@ == old(self)@,
                Ok(_) => r == Ok::<Option<u64>, KernelError>(old(self)@.sched.current_on(cpu))
                    && final(self)@ == (Kernel {
                    sched: old(self)@.sched.bound(cpu).cleared(cpu),
                    ..old(self)@
                }),
            },
    {
        if let Err(e) = self.bind_current_cpu_split(cpu) {
            return Err(e);
        }
        Ok(self.state.sched.block_current_on(cpu))
    }

    /// Preempts `cpu` in favour of `preferred_tid`.  The preempted task goes back to the run
    /// queue; when the preferred task is not queued there, the next one runs.
    pub fn on_preempt_prefer_on_cpu_split(&mut self, cpu: CpuId, preferred_tid: u64) -> (r: Option<
        u64,
    >)
        ensures
            r == if old(self)@.sched.online(cpu) {
                final(self)@.sched.current_on(cpu)
            } else {
                None
            },
            final(self)@ == (Kernel {
                sched: old(self)@.sched.preempted_for(cpu, preferred_tid),
                ..old(self)@
            }),
    {
        self.state.sched.on_preempt_prefer_on(cpu, preferred_tid)
    }

    /// Makes `cpu` the current processor and says whether it has nothing to run.
    pub fn terminal_idle_on_cpu_split(&mut self, cpu: CpuId) -> (r: Result<bool, KernelError>)
        ensures
            r == match old(self)@.sched.admits(cpu) {
                Err(e) => Err::<bool, KernelError>(KernelError::Scheduler(e)),
                Ok(_) => Ok(
                    (old(self)@.sched.current_on(cpu) is None || old(self)@.sched.current_on(cpu)
                        == Some(IDLE_TID)) && old(self)@.sched.runnable_on(cpu) == 0,
                ),
            },
            final(self)@ == old(self)@.bound(cpu),
    {
        if let Err(e) = self.bind_current_cpu_split(cpu) {
            return Err(e);
        }
        let idle = match self.state.sched.current_tid_on(cpu) {
            None => true,
            Some(tid) => tid == IDLE_TID,
        };
        Ok(idle && self.state.sched.runnable_count_on(cpu) == 0)
    }

    /// Queues `tid` on `cpu` and dispatches there, in one step; another current processor
    /// stays current.
    ///
    /// As in a hosted build, the first user task may go to any processor.  A freestanding build
    /// asks `placement_breaks_pin_split_read` first, and halts.
    pub fn enqueue_then_dispatch_on_cpu_split(
        &mut self,
        cpu: CpuId,
        tid: u64,
        policy: EnqueueRefusalPolicy,
    ) -> (r: Result<CpuEnqueueDispatch, KernelError>)
        ensures
            match old(self)@.sched.admits(cpu) {
                Err(e) => r == Err::<CpuEnqueueDispatch, KernelError>(KernelError::Scheduler(e))
                    && final(self)@ == old(self)@,
                Ok(_) => {
                    let queued = old(self)@.enqueued(cpu, tid);
                    if old(self)@.dispatch_follows(cpu, tid, policy) {
                        r == Ok::<CpuEnqueueDispatch, KernelError>(
                            CpuEnqueueDispatch {
                                enqueued: old(self)@.enqueue_verdict(cpu, tid),
                                selected: queued.sched.selection_on(cpu).spec_tid(),
                            },
                        ) && final(self)@ == (Kernel {
                            sched: queued.sched.dispatched(cpu),
                            ..old(self)@
                        })
                    } else {
                        r == Ok::<CpuEnqueueDispatch, KernelError>(
                            CpuEnqueueDispatch {
                                enqueued: old(self)@.enqueue_verdict(cpu, tid),
                                selected: None,
                            },
                        ) && final(self)@ == old(self)@
                    }
                },
            },
    {
        if let Err(e) = self.state.sched.validate_online_cpu(cpu) {
            return Err(map_scheduler_error(e));
        }
        let enqueued: Result<(), KernelError> = match self.state.tasks.enqueue_policy(tid) {
            Err(e) => Err(e),
            Ok(priority) => match self.state.sched.enqueue_on_with_priority(cpu, tid, priority) {
                Err(e) => Err(map_scheduler_error(e)),
                Ok(_) => Ok(()),
            },
        };
        let declined = policy == EnqueueRefusalPolicy::Decline && enqueued.is_err();
        let selected = if declined {
            None
        } else {
            self.state.sched.dispatch_next_on(cpu)
        };
        Ok(CpuEnqueueDispatch { enqueued, selected })
    }
}

} // verus!
