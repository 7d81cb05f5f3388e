//! Reads of one domain at a time, and the small records that diagnostics keep.
use vstd::prelude::*;

use crate::capability::{
    ControlPlaneCnodePlan, KernelCapacityProfile, RuntimeCapacityConfig,
};
use crate::ids::{Asid, CNodeId, CpuId, KernelError};
use crate::ipc::{Ipc, ReceiverWaiterIdentity};
use crate::kernel::Kernel;
use crate::runtime::{FatalTrapReadSnapshot, SharedKernel};
use crate::seqs;
use crate::task::{
    FaultPolicy, RecvAbiVariant, TaskClass, Tasks, ThreadControlBlock,
};
use crate::trap::{FaultInfo, FaultSubsystem, TelemetrySubsystem, TrapFrame};

verus! {

/// Tasks that owe a reply.
pub open spec fn owes_reply() -> spec_fn(Option<ThreadControlBlock>) -> bool {
    |s: Option<ThreadControlBlock>| s is Some && s->0.server_reply_link is Some
}

impl Tasks {
    /// Is `tid` blocked in a receive that names both of its buffers?
    pub open spec fn recv_v2_committed(self, tid: u64) -> bool {
        match self.find(tid) {
            Some(tcb) => match tcb.blocked_recv_state {
                Some(state) => state.recv_abi == RecvAbiVariant::RecvV2 && state.payload_user_ptr
                    != 0 && state.meta_user_ptr != 0,
                None => false,
            },
            None => false,
        }
    }

    /// The kernel stacks of the tasks in the first `n` slots: task, base and top.
    pub open spec fn kernel_stacks(self, n: int) -> Seq<(u64, u64, u64)>
        decreases n,
    {
        if n <= 0 {
            seq![]
        } else {
            let before = self.kernel_stacks(n - 1);
            match self.tcbs[n - 1] {
                Some(tcb) => match (tcb.kernel_context.stack_base, tcb.kernel_context.stack_top) {
                    (Some(base), Some(top)) => before.push((tcb.tid.0, base.0, top.0)),
                    _ => before,
                },
                None => before,
            }
        }
    }

    /// The state after `tid` was given a home processor.
    pub open spec fn homed(self, tid: u64, cpu: CpuId) -> Tasks {
        match self.find(tid) {
            Some(tcb) => self.with_task(
                tid,
                ThreadControlBlock { cpu_affinity: Some(cpu), ..tcb },
            ),
            None => self,
        }
    }
}

impl Ipc {
    /// Is the end of the call behind this reply record decided between several parties?
    pub open spec fn terminal_arbitrated(self, index: usize, generation: u64) -> bool {
        &&& index < self.replies.len()
        &&& self.replies[index as int].generation == generation
        &&& self.replies[index as int].terminal.epoch != 0
        &&& self.replies[index as int].terminal.identity.reply_record_index == index
        &&& self.replies[index as int].terminal.identity.reply_record_generation == generation
    }

    /// How many tasks wait for notification `index`.
    pub open spec fn notification_waiters_at(self, index: usize) -> usize {
        if index < self.notification_waiters.len() && self.notification_waiters[index as int] is Some {
            1
        } else {
            0
        }
    }
}

impl Kernel {
    /// The task that the next dispatch on an idle `cpu` would take.
    pub open spec fn next_candidate(self, cpu: CpuId) -> Option<u64> {
        if self.sched.online(cpu) && self.sched.next_on(cpu) < self.sched.queue.len() {
            Some(self.sched.queue[self.sched.next_on(cpu)].tid)
        } else {
            None
        }
    }

    /// Slots of the node of process `pid`.
    pub open spec fn process_slots(self, pid: u64) -> Option<usize> {
        match self.caps.cnode_of(pid) {
            Some(cnode) => self.caps.slots_of(cnode),
            None => None,
        }
    }

    /// Whether `requester` may give the node of process `pid` that many slots.
    pub open spec fn resize_verdict(self, requester: u64, pid: u64, slots: usize) -> Result<
        (),
        KernelError,
    > {
        match self.tasks.class_of(requester) {
            None => Err(KernelError::TaskMissing),
            Some(class) => self.caps.resize_verdict(
                ControlPlaneCnodePlan {
                    requester_class: class,
                    requester_pid: match self.tasks.group_of(requester) {
                        Some(group) => group,
                        None => requester,
                    },
                },
                pid,
                slots,
                self.profile.spec_config(),
            ),
        }
    }

    /// The state after `requester` asked to resize the node of process `pid`.
    pub open spec fn after_resize(self, requester: u64, pid: u64, slots: usize) -> Kernel {
        if self.resize_verdict(requester, pid, slots) is Ok {
            Kernel { caps: self.caps.resized(pid, slots), ..self }
        } else {
            self
        }
    }
}

impl SharedKernel {
    /// How many processors are online.
    pub fn online_cpu_count_split_read(&self) -> (r: usize)
        ensures
            r == seqs::count_where(self@.sched.cpus, crate::scheduler::is_online()),
    {
        self.state.sched.online_cpu_count()
    }

    /// How many processors are present.
    pub fn present_cpu_count_split_read(&self) -> (r: usize)
        ensures
            r == seqs::count_where(self@.sched.cpus, crate::scheduler::is_present()),
    {
        self.state.sched.present_cpu_count()
    }

    /// The capacity profile the kernel was started with.
    pub fn capacity_profile_split_read(&self) -> (r: KernelCapacityProfile)
        ensures
            r == self@.profile,
    {
        self.state.profile
    }

    /// The limits of the kernel's capacity profile.
    pub fn runtime_capacity_config_split_read(&self) -> (r: RuntimeCapacityConfig)
        ensures
            r == self@.profile.spec_config(),
    {
        self.capacity_profile_split_read().config()
    }

    /// Records a fault.
    pub fn record_fault_split_mut(&mut self, fault: FaultInfo)
        ensures
            final(self)@ == (Kernel {
                faults: FaultSubsystem { last_fault: Some(fault), ..old(self)@.faults },
                ..old(self)@
            }),
    {
        self.state.faults.last_fault = Some(fault);
    }

    /// Records the frame of a fault.
    pub fn record_fault_frame_snapshot_split_mut(&mut self, frame: &TrapFrame)
        ensures
            final(self)@ == (Kernel {
                faults: FaultSubsystem { last_fault_frame: Some(*frame), ..old(self)@.faults },
                ..old(self)@
            }),
    {
        self.state.faults.last_fault_frame = Some(*frame);
    }

    /// Forgets the last fault and its frame.
    pub fn clear_last_fault_split_mut(&mut self)
        ensures
            final(self)@ == (Kernel {
                faults: FaultSubsystem {
                    last_fault: None,
                    last_fault_frame: None,
                    ..old(self)@.faults
                },
                ..old(self)@
            }),
    {
        self.state.faults.last_fault = None;
        self.state.faults.last_fault_frame = None;
    }

    /// The last fault.
    pub fn last_fault_split_read(&self) -> (r: Option<FaultInfo>)
        ensures
            r == self@.faults.last_fault,
    {
        self.state.faults.last_fault
    }

    /// The frame of the last fault.
    pub fn last_fault_frame_split_read(&self) -> (r: Option<TrapFrame>)
        ensures
            r == self@.faults.last_fault_frame,
    {
        self.state.faults.last_fault_frame
    }

    /// What a fault does to its task.
    pub fn fault_policy_split_read(&self) -> (r: FaultPolicy)
        ensures
            r == self@.faults.fault_policy,
    {
        self.state.faults.fault_policy
    }

    /// The endpoint that the supervisor listens on.
    pub fn supervisor_endpoint_split(&self) -> (r: Option<usize>)
        ensures
            r == self@.faults.supervisor_endpoint,
    {
        self.state.faults.supervisor_endpoint
    }

    /// Counts a translation shootdown; the counter wraps.
    pub fn increment_tlb_shootdown_count_split_mut(&mut self)
        ensures
            final(self)@ == (Kernel {
                telemetry: TelemetrySubsystem {
                    tlb_shootdown_count: old(self)@.telemetry.tlb_shootdown_count.wrapping_add(1),
                    ..old(self)@.telemetry
                },
                ..old(self)@
            }),
    {
        self.state.telemetry.tlb_shootdown_count =
        self.state.telemetry.tlb_shootdown_count.wrapping_add(1);
    }

    /// Counts shootdowns that timed out; the counter wraps.
    pub fn add_tlb_shootdown_timeout_count_split_mut(&mut self, delta: u64)
        ensures
            final(self)@ == (Kernel {
                telemetry: TelemetrySubsystem {
                    tlb_shootdown_timeout_count:
                        old(self)@.telemetry.tlb_shootdown_timeout_count.wrapping_add(delta),
                    ..old(self)@.telemetry
                },
                ..old(self)@
            }),
    {
        self.state.telemetry.tlb_shootdown_timeout_count =
        self.state.telemetry.tlb_shootdown_timeout_count.wrapping_add(delta);
    }

    /// Translation shootdowns so far.
    pub fn tlb_shootdown_count_split_read(&self) -> (r: u64)
        ensures
            r == self@.telemetry.tlb_shootdown_count,
    {
        self.state.telemetry.tlb_shootdown_count
    }

    /// Shootdowns so far that timed out.
    pub fn tlb_shootdown_timeout_count_split_read(&self) -> (r: u64)
        ensures
            r == self@.telemetry.tlb_shootdown_timeout_count,
    {
        self.state.telemetry.tlb_shootdown_timeout_count
    }

    /// Break shrinks so far.
    pub fn d3_vm_brk_shrink_split_live_calls_split_read(&self) -> (r: u64)
        ensures
            r == self@.telemetry.d3_vm_brk_shrink_split_live_calls,
    {
        self.state.telemetry.d3_vm_brk_shrink_split_live_calls
    }

    /// Pages that break shrinks unmapped so far.
    pub fn d3_vm_brk_shrink_split_live_pages_unmapped_split_read(&self) -> (r: u64)
        ensures
            r == self@.telemetry.d3_vm_brk_shrink_split_live_pages_unmapped,
    {
        self.state.telemetry.d3_vm_brk_shrink_split_live_pages_unmapped
    }

    /// The task that the next dispatch on an idle `cpu` would take; changes nothing.
    pub fn dispatch_next_candidate_split_read(&self, cpu: CpuId) -> (r: Option<u64>)
        ensures
            r == self@.next_candidate(cpu),
    {
        self.state.sched.peek_next_runnable_on(cpu)
    }

    /// Who was running on `cpu` when it trapped; zeros where nobody was.
    pub fn fatal_trap_read_snapshot(&self, cpu: CpuId) -> (r: FatalTrapReadSnapshot)
        ensures
            r.current_tid == match self@.sched.current_on(cpu) {
                Some(tid) => tid,
                None => 0,
            },
            r.current_asid == if r.current_tid == 0 {
                0
            } else {
                self@.asid_number(r.current_tid)
            },
    {
        let current_tid: u64 = match self.current_tid_split_read(cpu) {
            Some(tid) => tid,
            None => 0,
        };
        let current_asid: u64 = if current_tid != 0 {
            self.task_asid_for_tid_split_read(current_tid)
        } else {
            0
        };
        FatalTrapReadSnapshot { current_tid, current_asid }
    }

    /// The address space of `tid`, if it has one.
    pub fn task_asid_opt_split_read(&self, tid: u64) -> (r: Option<Asid>)
        ensures
            r == self@.tasks.asid_of(tid),
    {
        self.state.tasks.asid_of(tid)
    }

    /// The class of `tid`.
    pub fn task_class_split_read(&self, tid: u64) -> (r: Option<TaskClass>)
        ensures
            r == self@.tasks.class_of(tid),
    {
        self.state.tasks.class_of(tid)
    }

    /// Does `tid` exist?
    pub fn task_exists_split_read(&self, tid: u64) -> (r: bool)
        ensures
            r == (self@.tasks.find(tid) is Some),
    {
        self.state.tasks.get(tid).is_some()
    }

    /// The process that `tid` belongs to.
    pub fn process_id_split_read(&self, tid: u64) -> (r: Option<u64>)
        ensures
            r == self@.tasks.group_of(tid),
    {
        self.state.tasks.group_of(tid)
    }

    /// The processor that a woken `tid` is to be queued on.  The idle task has none.
    pub fn smp_request_wake_target_split_read(&self, tid: u64) -> (r: Option<CpuId>)
        ensures
            r == if tid == 0 {
                None
            } else {
                self@.tasks.affinity_of(tid)
            },
    {
        if tid == 0 {
            return None;
        }
        self.state.tasks.affinity_of(tid)
    }

    /// Gives `tid` a home processor; says whether the task exists.
    pub fn smp_assign_task_home_cpu(&mut self, tid: u64, cpu: CpuId) -> (r: bool)
        ensures
            r == (old(self)@.tasks.find(tid) is Some),
            final(self)@ == (Kernel { tasks: old(self)@.tasks.homed(tid, cpu), ..old(self)@ }),
    {
        match self.state.tasks.lookup(tid) {
            Some((i, tcb)) => {
                self.state.tasks.put(i, ThreadControlBlock { cpu_affinity: Some(cpu), ..tcb });
                true
            },
            None => false,
        }
    }

    /// Copies the kernel stacks of tasks into `out`, as far as it has room; says how many.
    pub fn d6_live_kernel_stacks_split(&self, out: &mut Vec<(u64, u64, u64)>) -> (r: usize)
        ensures
            r == if self@.tasks.kernel_stacks(self@.tasks.tcbs.len() as int).len()
                < old(out)@.len() {
                self@.tasks.kernel_stacks(self@.tasks.tcbs.len() as int).len()
            } else {
                old(out)@.len()
            },
            final(out)@ == self@.tasks.kernel_stacks(self@.tasks.tcbs.len() as int).take(
                r as int,
            ) + old(out)@.skip(r as int),
    {
        let mut n: usize = 0;
        let mut i: usize = 0;
        while i < self.state.tasks.tcbs.len()
            invariant
                i <= self@.tasks.tcbs.len(),
                out@.len() == old(out)@.len(),
                n == if self@.tasks.kernel_stacks(i as int).len() < old(out)@.len() {
                    self@.tasks.kernel_stacks(i as int).len()
                } else {
                    old(out)@.len()
                },
                out@ =~= self@.tasks.kernel_stacks(i as int).take(n as int) + old(out)@.skip(
                    n as int,
                ),
            decreases self@.tasks.tcbs.len() - i,
        {
            if let Some(tcb) = self.state.tasks.tcbs[i] {
                if let (Some(base), Some(top)) = (
                    tcb.kernel_context.stack_base,
                    tcb.kernel_context.stack_top,
                ) {
                    if n < out.len() {
                        out[n] = (tcb.tid.0, base.0, top.0);
                        n += 1;
                    }
                }
            }
            i += 1;
        }
        n
    }

    /// Is the end of the call behind this reply record decided between several parties?
    pub fn reply_record_terminal_arbitrated_split_read(&self, index: usize, generation: u64) -> (r:
        bool)
        ensures
            r == self@.ipc.terminal_arbitrated(index, generation),
    {
        if index >= self.state.ipc.replies.len() {
            return false;
        }
        let slot = self.state.ipc.replies[index];
        slot.generation == generation && slot.terminal.epoch != 0
            && slot.terminal.identity.reply_record_index == index
            && slot.terminal.identity.reply_record_generation == generation
    }

    /// Is `tid` blocked in a receive that names both of its buffers?
    pub fn blocked_recv_v2_commit_is_complete_split_read(&self, tid: u64) -> (r: bool)
        ensures
            r == self@.tasks.recv_v2_committed(tid),
    {
        match self.state.tasks.get(tid) {
            Some(tcb) => match tcb.blocked_recv_state {
                Some(state) => state.recv_abi == RecvAbiVariant::RecvV2 && state.payload_user_ptr
                    != 0 && state.meta_user_ptr != 0,
                None => false,
            },
            None => false,
        }
    }

    /// How many tasks owe a reply.
    pub fn live_server_reply_link_count_split_read(&self) -> (r: usize)
        ensures
            r == seqs::count_where(self@.tasks.tcbs, owes_reply()),
    {
        let mut n: usize = 0;
        let mut i: usize = 0;
        assert(self.state.tasks.tcbs@.take(0).len() == 0);
        while i < self.state.tasks.tcbs.len()
            invariant
                i <= self.state.tasks.tcbs@.len(),
                n <= i,
                n == seqs::count_where(self.state.tasks.tcbs@.take(i as int), owes_reply()),
            decreases self.state.tasks.tcbs@.len() - i,
        {
            proof {
                seqs::lemma_count_step(self.state.tasks.tcbs@, owes_reply(), i as int);
            }
            if let Some(tcb) = self.state.tasks.tcbs[i] {
                if tcb.server_reply_link.is_some() {
                    n += 1;
                }
            }
            i += 1;
        }
        assert(self.state.tasks.tcbs@.take(self.state.tasks.tcbs@.len() as int)
            =~= self.state.tasks.tcbs@);
        n
    }

    /// Slots of the node of process `pid`.
    pub fn cnode_slot_capacity_split_read(&self, pid: u64) -> (r: Option<usize>)
        ensures
            r == self@.process_slots(pid),
    {
        match self.state.caps.cnode_of(pid) {
            Some(cnode) => self.state.caps.slots_of(cnode),
            None => None,
        }
    }

    /// How many tasks wait for notification `notification_idx`.
    pub fn notification_waiter_count_split_read(&self, notification_idx: usize) -> (r: usize)
        ensures
            r == self@.ipc.notification_waiters_at(notification_idx),
    {
        if notification_idx >= self.state.ipc.notification_waiters.len() {
            return 0;
        }
        match self.state.ipc.notification_waiters[notification_idx] {
            Some(_) => 1,
            None => 0,
        }
    }

    /// Has process `pid` a node?
    pub fn cnode_registered_split_read(&self, pid: u64) -> (r: bool)
        ensures
            r == (self@.caps.cnode_of(pid) is Some),
    {
        self.state.caps.cnode_of(pid).is_some()
    }

    /// Gives the node of process `target_pid` that many slots, on behalf of `requester_tid`.
    pub fn control_plane_set_process_cnode_slots_split_mut(
        &mut self,
        requester_tid: u64,
        target_pid: u64,
        slot_capacity: usize,
    ) -> (r: Result<(), KernelError>)
        ensures
            r == old(self)@.resize_verdict(requester_tid, target_pid, slot_capacity),
            final(self)@ == old(self)@.after_resize(requester_tid, target_pid, slot_capacity),
    {
        let requester_class = match self.task_class_split_read(requester_tid) {
            None => {
                return Err(KernelError::TaskMissing);
            },
            Some(class) => class,
        };
        let requester_pid: u64 = match self.process_id_split_read(requester_tid) {
            Some(pid) => pid,
            None => requester_tid,
        };
        let limits = self.runtime_capacity_config_split_read();
        self.state.caps.set_process_cnode_slots(
            ControlPlaneCnodePlan { requester_class, requester_pid },
            target_pid,
            slot_capacity,
            limits,
        )
    }

    /// The node of the process that this very incarnation belongs to.
    pub fn process_cnode_for_identity_split_read(&self, identity: ReceiverWaiterIdentity) -> (r:
        Option<CNodeId>)
        ensures
            r == match self@.tasks.exact(identity.tid.0, Some(identity.asid)) {
                Some(tcb) => self@.caps.cnode_of(tcb.thread_group_id.0),
                None => None,
            },
    {
        match self.state.tasks.lookup_exact(identity.tid.0, Some(identity.asid)) {
            Some((_, tcb)) => self.state.caps.cnode_of(tcb.thread_group_id.0),
            None => None,
        }
    }
}

} // verus!
