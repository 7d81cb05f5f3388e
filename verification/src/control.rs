//! What a caller can do with the whole kernel state at hand.
use vstd::prelude::*;

use crate::capability::{
    Caps, CapabilitySubsystem, CnodeRecord, ControlPlaneCnodePlan, KernelCapacityProfile,
    ProcessCnode, RuntimeCapacityConfig,
};
use crate::deferred::{Pending, WorkItem, MAX_WORK_ITEMS};
use crate::ids::{
    map_scheduler_error, Asid, CNodeId, CpuId, KernelError, SyscallError, TrapHandleError,
};
use crate::kernel::{Kernel, KernelState, DEFAULT_CNODE_SLOTS};
use crate::scheduler::DispatchSelection;
use crate::seqs;
use crate::task::{
    FaultPolicy, TaskClass, TaskStatus, TaskTransition, Tasks, ThreadControlBlock,
};
use crate::trap::{FaultInfo, FaultSubsystem, TrapFrame};

verus! {

impl Caps {
    /// The state in which process `pid` has a node.
    pub open spec fn provided(self, pid: u64) -> Caps {
        let cnode = CNodeId(pid);
        Caps {
            cnodes: if self.slots_of(cnode) is Some {
                self.cnodes
            } else {
                self.cnodes.push(CnodeRecord { cnode, slots: DEFAULT_CNODE_SLOTS })
            },
            process_cnodes: if self.cnode_of(pid) is Some {
                self.process_cnodes
            } else {
                self.process_cnodes.push(ProcessCnode { pid, cnode })
            },
            ..self
        }
    }
}

impl CapabilitySubsystem {
    /// Gives process `pid` a node, if it has none.
    pub fn provide(&mut self, pid: u64)
        ensures
            final(self)@ == old(self)@.provided(pid),
    {
        let cnode = CNodeId(pid);
        let registered = self.cnode_of(pid).is_some();
        if self.slots_of(cnode).is_none() {
            self.cnodes.push(CnodeRecord { cnode, slots: DEFAULT_CNODE_SLOTS });
        }
        if !registered {
            self.process_cnodes.push(ProcessCnode { pid, cnode });
        }
    }
}

impl Kernel {
    /// The state after the registration of a task.
    pub open spec fn after_register(self, tid: u64, class: TaskClass) -> Kernel {
        if self.register_verdict(tid) is Ok {
            Kernel {
                tasks: Tasks {
                    tcbs: self.tasks.tcbs.update(
                        seqs::first_where(self.tasks.tcbs, crate::kernel::slot_free()),
                        Some(ThreadControlBlock::spec_fresh(tid, class)),
                    ),
                    ..self.tasks
                },
                caps: self.caps.provided(tid),
                ..self
            }
        } else {
            self
        }
    }

    /// What handing `cpu` an item of work comes to.
    pub open spec fn submit_verdict(self, cpu: CpuId) -> Result<(), KernelError> {
        match self.sched.admits(cpu) {
            Err(e) => Err(KernelError::Scheduler(e)),
            Ok(_) => if crate::deferred::has_room(self.pending.work, cpu, MAX_WORK_ITEMS) {
                Ok(())
            } else {
                Err(KernelError::WorkQueueFull)
            },
        }
    }

    /// The state after `cpu` was handed an item of work.
    pub open spec fn after_submit(self, cpu: CpuId, item: WorkItem) -> Kernel {
        if self.submit_verdict(cpu) is Ok {
            Kernel {
                pending: Pending {
                    work: crate::deferred::offered(self.pending.work, cpu, item, MAX_WORK_ITEMS),
                    ..self.pending
                },
                ..self
            }
        } else {
            self
        }
    }

    /// The state after the current task of `cpu` went back to the run queue.
    pub open spec fn put_back(self, cpu: CpuId) -> Kernel {
        let tid = self.sched.current_on(cpu)->0;
        Kernel {
            sched: self.sched.reenqueued(cpu),
            tasks: match self.tasks.find(tid) {
                Some(tcb) if tcb.status == TaskStatus::Running => self.tasks.with_task(
                    tid,
                    ThreadControlBlock { status: TaskStatus::Runnable, ..tcb },
                ),
                _ => self.tasks,
            },
            ..self
        }
    }

    /// The state after the current task of the current processor gave way.
    pub open spec fn yielded(self) -> Kernel {
        let cpu = self.sched.current_cpu;
        if self.sched.can_reenqueue(cpu) {
            self.put_back(cpu).dispatched(cpu)
        } else {
            self
        }
    }

    /// Whether the current task may give the node of process `pid` that many slots.
    pub open spec fn syscall_resize_verdict(self, pid: u64, slots: usize) -> Result<
        (),
        TrapHandleError,
    > {
        let verdict = match self.sched.current_on(self.sched.current_cpu) {
            None => Err(KernelError::TaskMissing),
            Some(requester) => self.resize_verdict(requester, pid, slots),
        };
        match verdict {
            Ok(_) => Ok(()),
            Err(e) => Err(TrapHandleError::Syscall(crate::ids::syscall_error_of(e))),
        }
    }
}

impl KernelState {
    /// How many processors are online.
    pub fn online_cpu_count(&self) -> (r: usize)
        ensures
            r == seqs::count_where(self@.sched.cpus, crate::scheduler::is_online()),
    {
        self.sched.online_cpu_count()
    }

    /// How many processors are present.
    pub fn present_cpu_count(&self) -> (r: usize)
        ensures
            r == seqs::count_where(self@.sched.cpus, crate::scheduler::is_present()),
    {
        self.sched.present_cpu_count()
    }

    /// The capacity profile the kernel was started with.
    pub fn capacity_profile(&self) -> (r: KernelCapacityProfile)
        ensures
            r == self@.profile,
    {
        self.profile
    }

    /// The limits of the kernel's capacity profile.
    pub fn runtime_capacity_config(&self) -> (r: RuntimeCapacityConfig)
        ensures
            r == self@.profile.spec_config(),
    {
        self.profile.config()
    }

    /// The last fault.
    pub fn last_fault(&self) -> (r: Option<FaultInfo>)
        ensures
            r == self@.faults.last_fault,
    {
        self.faults.last_fault
    }

    /// The frame of the last fault.
    pub fn last_fault_frame(&self) -> (r: Option<TrapFrame>)
        ensures
            r == self@.faults.last_fault_frame,
    {
        self.faults.last_fault_frame
    }

    /// Records a fault.
    pub fn record_fault(&mut self, fault: FaultInfo)
        ensures
            final(self)@ == (Kernel {
                faults: FaultSubsystem { last_fault: Some(fault), ..old(self)@.faults },
                ..old(self)@
            }),
    {
        self.faults.last_fault = Some(fault);
    }

    /// Records the frame of a fault.
    pub fn record_fault_frame_snapshot(&mut self, frame: &TrapFrame)
        ensures
            final(self)@ == (Kernel {
                faults: FaultSubsystem { last_fault_frame: Some(*frame), ..old(self)@.faults },
                ..old(self)@
            }),
    {
        self.faults.last_fault_frame = Some(*frame);
    }

    /// Forgets the last fault and its frame.
    pub fn clear_last_fault(&mut self)
        ensures
            final(self)@ == (Kernel {
                faults: FaultSubsystem {
                    last_fault: None,
                    last_fault_frame: None,
                    ..old(self)@.faults
                },
                ..old(self)@
            }),
    {
        self.faults.last_fault = None;
        self.faults.last_fault_frame = None;
    }

    /// What a fault does to its task.
    pub fn fault_policy(&self) -> (r: FaultPolicy)
        ensures
            r == self@.faults.fault_policy,
    {
        self.faults.fault_policy
    }

    /// Translation shootdowns so far.
    pub fn tlb_shootdown_count(&self) -> (r: u64)
        ensures
            r == self@.telemetry.tlb_shootdown_count,
    {
        self.telemetry.tlb_shootdown_count
    }

    /// Shootdowns so far that timed out.
    pub fn tlb_shootdown_timeout_count(&self) -> (r: u64)
        ensures
            r == self@.telemetry.tlb_shootdown_timeout_count,
    {
        self.telemetry.tlb_shootdown_timeout_count
    }

    /// Brings `cpu` online with nothing current on it; one that is online stays as it is.
    pub fn bring_up_cpu(&mut self, cpu: CpuId) -> (r: Result<(), KernelError>)
        ensures
            r is Ok <==> old(self)@.sched.known(cpu),
            r matches Err(e) ==> e == KernelError::Scheduler(
                crate::ids::SchedulerError::InvalidCpu,
            ),
            final(self)@ == (Kernel { sched: old(self)@.sched.brought_up(cpu), ..old(self)@ }),
    {
        match self.sched.bring_up(cpu) {
            Ok(_) => Ok(()),
            Err(e) => Err(map_scheduler_error(e)),
        }
    }

    /// Registers an application task.
    pub fn register_task(&mut self, tid: u64) -> (r: Result<(), KernelError>)
        ensures
            r == old(self)@.register_verdict(tid),
            final(self)@ == old(self)@.after_register(tid, TaskClass::App),
    {
        self.register_task_with_class(tid, TaskClass::App)
    }

    /// Registers a task that leads its own process, and gives the process a node.
    pub fn register_task_with_class(&mut self, tid: u64, class: TaskClass) -> (r: Result<
        (),
        KernelError,
    >)
        ensures
            r == old(self)@.register_verdict(tid),
            final(self)@ == old(self)@.after_register(tid, class),
    {
        if self.tasks.lookup(tid).is_some() {
            return Err(KernelError::WrongObject);
        }
        let mut i: usize = 0;
        while i < self.tasks.tcbs.len() && self.tasks.tcbs[i].is_some()
            invariant
                *self == *old(self),
                i <= self.tasks.tcbs@.len(),
                forall|j: int|
                    0 <= j < i ==> !crate::kernel::slot_free()(#[trigger] self.tasks.tcbs@[j]),
            decreases self.tasks.tcbs@.len() - i,
        {
            i += 1;
        }
        proof {
            seqs::lemma_first_where_is(
                self.tasks.tcbs@,
                crate::kernel::slot_free(),
                i as int,
            );
        }
        if i >= self.tasks.tcbs.len() {
            return Err(KernelError::TaskTableFull);
        }
        self.tasks.tcbs[i] = Some(ThreadControlBlock::fresh(tid, class));
        self.caps.provide(tid);
        Ok(())
    }

    /// Hands `cpu` an item of work.
    pub fn submit_cross_cpu_work(&mut self, cpu: CpuId, item: WorkItem) -> (r: Result<
        (),
        KernelError,
    >)
        ensures
            r == old(self)@.submit_verdict(cpu),
            final(self)@ == old(self)@.after_submit(cpu, item),
    {
        if let Err(e) = self.sched.validate_online_cpu(cpu) {
            return Err(map_scheduler_error(e));
        }
        if self.pending.work.offer(cpu, item, MAX_WORK_ITEMS) {
            Ok(())
        } else {
            Err(KernelError::WorkQueueFull)
        }
    }

    /// Does the work that waits for `cpu`, oldest first; says how much there was.
    pub fn process_cross_cpu_work_for_cpu(&mut self, cpu: CpuId) -> (r: Result<usize, KernelError>)
        ensures
            match old(self)@.sched.admits(cpu) {
                Err(e) => {
                    &&& r == Err::<usize, KernelError>(KernelError::Scheduler(e))
                    &&& final(self)@ == old(self)@
                },
                Ok(_) => {
                    &&& r matches Ok(n)
                    &&& n == old(self)@.work_for(cpu)
                    &&& final(self)@ == old(self)@.worked_off(cpu, old(self)@.work_for(cpu))
                },
            },
    {
        if let Err(e) = self.sched.validate_online_cpu(cpu) {
            return Err(map_scheduler_error(e));
        }
        let total: usize = self.pending.work.count(cpu);
        let mut left: usize = total;
        while left > 0
            invariant
                total == old(self)@.work_for(cpu),
                old(self)@.sched.admits(cpu) is Ok,
                old(self)@.worked_off(cpu, old(self)@.work_for(cpu)) == self@.worked_off(
                    cpu,
                    left as nat,
                ),
            decreases left,
        {
            match self.pending.work.take_oldest(cpu) {
                None => {
                    return Ok(total);
                },
                Some(item) => {
                    self.work(cpu, item);
                },
            }
            left -= 1;
        }
        Ok(total)
    }

    /// Does one item of work on `cpu`.
    fn work(&mut self, cpu: CpuId, item: WorkItem)
        ensures
            final(self)@ == old(self)@.worked(cpu, item),
    {
        match item {
            WorkItem::Reschedule => {},
            WorkItem::WakeTask { tid } => {
                if let Some((i, tcb)) = self.tasks.lookup(tid.0) {
                    if tcb.status.live() {
                        self.tasks.put(
                            i,
                            ThreadControlBlock { status: TaskStatus::Runnable, ..tcb },
                        );
                        let _ = self.enqueue_on_cpu(cpu, tid.0);
                    }
                }
            },
        }
    }

    /// The processor the state is bound to.
    pub fn current_cpu(&self) -> (r: CpuId)
        ensures
            r == self@.sched.current_cpu,
    {
        self.sched.current_cpu
    }

    /// Binds the state to `cpu`, if it is online.
    pub fn set_current_cpu(&mut self, cpu: CpuId) -> (r: Result<(), KernelError>)
        ensures
            match old(self)@.sched.admits(cpu) {
                Err(e) => r == Err::<(), KernelError>(KernelError::Scheduler(e)) && final(self)@
                    == old(self)@,
                Ok(_) => r is Ok && final(self)@ == (Kernel {
                    sched: old(self)@.sched.bound(cpu),
                    ..old(self)@
                }),
            },
    {
        if let Err(e) = self.sched.validate_online_cpu(cpu) {
            return Err(map_scheduler_error(e));
        }
        self.sched.current_cpu = cpu;
        Ok(())
    }

    /// Queues `tid` on the current processor.
    pub fn enqueue_current_cpu(&mut self, tid: u64) -> (r: Result<(), KernelError>)
        ensures
            r == old(self)@.enqueue_verdict(old(self)@.sched.current_cpu, tid),
            final(self)@ == old(self)@.enqueued(old(self)@.sched.current_cpu, tid),
    {
        self.enqueue_on_cpu(self.sched.current_cpu, tid)
    }

    /// Queues `tid` on `cpu`.
    pub fn enqueue_on_cpu(&mut self, cpu: CpuId, tid: u64) -> (r: Result<(), KernelError>)
        ensures
            r == old(self)@.enqueue_verdict(cpu, tid),
            final(self)@ == old(self)@.enqueued(cpu, tid),
    {
        match self.tasks.enqueue_policy(tid) {
            Err(e) => Err(e),
            Ok(priority) => match self.sched.enqueue_on_with_priority(cpu, tid, priority) {
                Ok(_) => Ok(()),
                Err(e) => Err(map_scheduler_error(e)),
            },
        }
    }

    /// Dispatches on the current processor; returns the task that is now current.
    pub fn dispatch_next_task(&mut self) -> (r: Option<u64>)
        ensures
            r == old(self)@.sched.selection_on(old(self)@.sched.current_cpu).spec_tid(),
            final(self)@ == old(self)@.dispatched(old(self)@.sched.current_cpu),
    {
        self.dispatch_next_on_cpu(self.sched.current_cpu)
    }

    /// Dispatches on `cpu`; returns the task that is now current there.
    pub fn dispatch_next_on_cpu(&mut self, cpu: CpuId) -> (r: Option<u64>)
        ensures
            r == old(self)@.sched.selection_on(cpu).spec_tid(),
            final(self)@ == old(self)@.dispatched(cpu),
    {
        let selection = self.sched.dispatch_next_selection_on(cpu);
        if let DispatchSelection::Dequeued { tid } = selection {
            let _ = self.tasks.apply_dispatch_transition(tid, TaskTransition::DispatchIncoming);
        }
        selection.tid()
    }

    /// The task that is current on the current processor.
    pub fn current_tid(&self) -> (r: Option<u64>)
        ensures
            r == self@.sched.current_on(self@.sched.current_cpu),
    {
        self.sched.current_tid_on(self.sched.current_cpu)
    }

    /// The task that is current on `cpu`.
    pub fn current_tid_on_cpu(&self, cpu: CpuId) -> (r: Option<u64>)
        ensures
            r == self@.sched.current_on(cpu),
    {
        self.sched.current_tid_on(cpu)
    }

    /// The current task goes to the end of the run queue and the next one runs.
    pub fn yield_current(&mut self) -> (r: Result<(), KernelError>)
        ensures
            r == if old(self)@.sched.can_reenqueue(old(self)@.sched.current_cpu) {
                Ok::<(), KernelError>(())
            } else {
                Err(KernelError::TaskMissing)
            },
            final(self)@ == old(self)@.yielded(),
    {
        let cpu = self.sched.current_cpu;
        match self.sched.preempt_reenqueue_only_on(cpu) {
            None => Err(KernelError::TaskMissing),
            Some(tid) => {
                if let Some((i, tcb)) = self.tasks.lookup(tid) {
                    if tcb.status == TaskStatus::Running {
                        self.tasks.put(
                            i,
                            ThreadControlBlock { status: TaskStatus::Runnable, ..tcb },
                        );
                    }
                }
                let _ = self.dispatch_next_on_cpu(cpu);
                Ok(())
            },
        }
    }

    /// The node of process `pid`.
    pub fn process_cnode_for_pid(&self, pid: u64) -> (r: Option<CNodeId>)
        ensures
            r == self@.caps.cnode_of(pid),
    {
        self.caps.cnode_of(pid)
    }

    /// Slots of `cnode`.
    pub fn cnode_slot_capacity(&self, cnode: CNodeId) -> (r: Option<usize>)
        ensures
            r == self@.caps.slots_of(cnode),
    {
        self.caps.slots_of(cnode)
    }

    /// Gives the node of process `target_pid` that many slots, on behalf of the current task.
    pub fn control_plane_set_process_cnode_slots_via_syscall(
        &mut self,
        target_pid: u64,
        slot_capacity: usize,
    ) -> (r: Result<(), TrapHandleError>)
        ensures
            r == old(self)@.syscall_resize_verdict(target_pid, slot_capacity),
            final(self)@ == match old(self)@.sched.current_on(old(self)@.sched.current_cpu) {
                Some(requester) => old(self)@.after_resize(requester, target_pid, slot_capacity),
                None => old(self)@,
            },
    {
        let requester: u64 = match self.current_tid() {
            None => {
                return Err(
                    TrapHandleError::Syscall(SyscallError::from_kernel(KernelError::TaskMissing)),
                );
            },
            Some(tid) => tid,
        };
        let requester_class = match self.tasks.class_of(requester) {
            None => {
                return Err(
                    TrapHandleError::Syscall(SyscallError::from_kernel(KernelError::TaskMissing)),
                );
            },
            Some(class) => class,
        };
        let requester_pid: u64 = match self.tasks.group_of(requester) {
            Some(pid) => pid,
            None => requester,
        };
        let limits = self.profile.config();
        match self.caps.set_process_cnode_slots(
            ControlPlaneCnodePlan { requester_class, requester_pid },
            target_pid,
            slot_capacity,
            limits,
        ) {
            Ok(_) => Ok(()),
            Err(e) => Err(TrapHandleError::Syscall(SyscallError::from_kernel(e))),
        }
    }

    /// The class of `tid`.
    pub fn task_class(&self, tid: u64) -> (r: Option<TaskClass>)
        ensures
            r == self@.tasks.class_of(tid),
    {
        self.tasks.class_of(tid)
    }

    /// The process that `tid` belongs to.
    pub fn process_id(&self, tid: u64) -> (r: Option<u64>)
        ensures
            r == self@.tasks.group_of(tid),
    {
        self.tasks.group_of(tid)
    }

    /// Does `tid` lead its thread group?
    pub fn is_thread_group_leader(&self, tid: u64) -> (r: bool)
        ensures
            r == self@.tasks.leads_group(tid),
    {
        match self.tasks.group_of(tid) {
            Some(group) => group == tid,
            None => false,
        }
    }

    /// The address space of `tid`.
    pub fn task_asid(&self, tid: u64) -> (r: Option<Asid>)
        ensures
            r == self@.tasks.asid_of(tid),
    {
        self.tasks.asid_of(tid)
    }

    /// The status of `tid`.
    pub fn task_status(&self, tid: u64) -> (r: Option<TaskStatus>)
        ensures
            r == match self@.tasks.find(tid) {
                Some(tcb) => Some(tcb.status),
                None => None,
            },
    {
        match self.tasks.get(tid) {
            Some(tcb) => Some(tcb.status),
            None => None,
        }
    }

    /// Has a deadline of `tid` fired since this was last asked?
    pub fn consume_ipc_timeout_fired_for_tid(&mut self, tid: u64) -> (r: Result<bool, KernelError>)
        ensures
            match old(self)@.tasks.find(tid) {
                None => r == Err::<bool, KernelError>(KernelError::TaskMissing) && final(self)@
                    == old(self)@,
                Some(tcb) => r == Ok::<bool, KernelError>(tcb.ipc_timeout_fired) && final(self)@
                    == (Kernel {
                    tasks: old(self)@.tasks.with_task(
                        tid,
                        ThreadControlBlock { ipc_timeout_fired: false, ..tcb },
                    ),
                    ..old(self)@
                }),
            },
    {
        match self.tasks.lookup(tid) {
            None => Err(KernelError::TaskMissing),
            Some((i, tcb)) => {
                self.tasks.put(i, ThreadControlBlock { ipc_timeout_fired: false, ..tcb });
                Ok(tcb.ipc_timeout_fired)
            },
        }
    }

    /// How many tasks wait for notification `index`.
    pub fn notification_waiter_count(&self, index: usize) -> (r: usize)
        ensures
            r == self@.ipc.notification_waiters_at(index),
    {
        if index < self.ipc.notification_waiters.len()
            && self.ipc.notification_waiters[index].is_some() {
            1
        } else {
            0
        }
    }
}

} // verus!
