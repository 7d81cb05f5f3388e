//! The whole kernel state and the operations that hold all of it.
use std::collections::HashMap;
use vstd::prelude::*;

use crate::capability::{
    CapabilitySubsystem, Caps, CnodeRecord, KernelCapacityProfile, ProcessCnode,
};
use crate::deferred::{CpuList, DeferredWork, DispatchPostWork, Pending, WorkItem};
use crate::ids::{Asid, CNodeId, CpuId, KernelError, ThreadId, IDLE_TID, MAX_CPUS};
use crate::ipc::{
    DeadlineToken, EndpointSlot, EnvelopeSlot, Ipc, IpcSubsystem, IpcTelemetry, ReplySlot,
    SenderWaiter, TerminalCell, TerminalOwner, TokenState, MAX_REPLY_CAPS, MAX_TRANSFER_ENVELOPES,
};
use crate::memory::{Mem, MemorySubsystem, MAX_MEMORY_OBJECTS};
use crate::scheduler::{
    CpuSlot, DispatchSelection, Sched, SchedulerState, SchedulerTimer, TaskPriority,
};
use crate::seqs;
use crate::task::{
    FaultPolicy, TaskClass, TaskStatus, TaskSubsystem, TaskTransition, Tasks, TerminalIdentity,
    ThreadControlBlock, TokenIdentity,
};
use crate::trap::{FaultSubsystem, TelemetrySubsystem};
use crate::vm::{AddressSpaceManager, Vm};

verus! {

/// Notification slots in the table.
pub const MAX_NOTIFICATIONS: usize = 32;

/// Slots of the node that a new process gets.
pub const DEFAULT_CNODE_SLOTS: usize = 16;

/// The state of the whole kernel.
#[verifier::ext_equal]
pub struct Kernel {
    pub sched: Sched,
    pub tasks: Tasks,
    pub ipc: Ipc,
    pub caps: Caps,
    pub vm: Vm,
    pub mem: Mem,
    pub faults: FaultSubsystem,
    pub telemetry: TelemetrySubsystem,
    pub profile: KernelCapacityProfile,
    pub pending: Pending,
}

/// The whole kernel state.
pub struct KernelState {
    pub sched: SchedulerState,
    pub tasks: TaskSubsystem,
    pub ipc: IpcSubsystem,
    pub caps: CapabilitySubsystem,
    pub vm: AddressSpaceManager,
    pub mem: MemorySubsystem,
    pub faults: FaultSubsystem,
    pub telemetry: TelemetrySubsystem,
    pub profile: KernelCapacityProfile,
    pub pending: DeferredWork,
}

impl View for KernelState {
    type V = Kernel;

    open spec fn view(&self) -> Kernel {
        Kernel {
            sched: self.sched@,
            tasks: self.tasks@,
            ipc: self.ipc@,
            caps: self.caps@,
            vm: self.vm@,
            mem: self.mem@,
            faults: self.faults,
            telemetry: self.telemetry,
            profile: self.profile,
            pending: self.pending@,
        }
    }
}

/// Free task slots.
pub open spec fn slot_free() -> spec_fn(Option<ThreadControlBlock>) -> bool {
    |s: Option<ThreadControlBlock>| s is None
}

impl Tasks {
    /// With which priority `tid` may be queued: spawn reservations may not, and only the
    /// idle task needs no class.
    pub open spec fn enqueue_policy(self, tid: u64) -> Result<TaskPriority, KernelError> {
        if self.find(tid) is Some && self.find(tid)->0.spawn_reservation {
            Err(KernelError::WrongObject)
        } else if tid == IDLE_TID {
            Ok(TaskPriority::Normal)
        } else {
            match self.class_of(tid) {
                None => Err(KernelError::TaskMissing),
                Some(class) => Ok(class.spec_priority()),
            }
        }
    }
}

impl TaskSubsystem {
    /// With which priority `tid` may be queued.
    pub fn enqueue_policy(&self, tid: u64) -> (r: Result<TaskPriority, KernelError>)
        ensures
            r == self@.enqueue_policy(tid),
    {
        let found = self.get(tid);
        let reserved = match found {
            Some(tcb) => tcb.spawn_reservation,
            None => false,
        };
        if reserved {
            return Err(KernelError::WrongObject);
        }
        if tid == IDLE_TID {
            return Ok(TaskPriority::Normal);
        }
        match self.class_of(tid) {
            None => Err(KernelError::TaskMissing),
            Some(class) => Ok(class.priority()),
        }
    }
}

impl Kernel {
    /// What queueing `tid` on `cpu` comes to.
    pub open spec fn enqueue_verdict(self, cpu: CpuId, tid: u64) -> Result<(), KernelError> {
        match self.tasks.enqueue_policy(tid) {
            Err(e) => Err(e),
            Ok(_) => match self.sched.enqueue_verdict(cpu, tid) {
                Err(e) => Err(KernelError::Scheduler(e)),
                Ok(_) => Ok(()),
            },
        }
    }

    /// The state after an attempt to queue `tid` on `cpu`.
    pub open spec fn enqueued(self, cpu: CpuId, tid: u64) -> Kernel {
        match self.tasks.enqueue_policy(tid) {
            Err(_) => self,
            Ok(priority) => Kernel { sched: self.sched.enqueued(cpu, tid, priority), ..self },
        }
    }

    /// The state after a dispatch on `cpu` in which the incoming task starts to run.
    pub open spec fn dispatched(self, cpu: CpuId) -> Kernel {
        Kernel {
            sched: self.sched.dispatched(cpu),
            tasks: match self.sched.selection_on(cpu) {
                DispatchSelection::Dequeued { tid } => if self.tasks.dispatch_verdict(
                    tid,
                    TaskTransition::DispatchIncoming,
                ) is Ok {
                    self.tasks.transitioned(tid, TaskTransition::DispatchIncoming)
                } else {
                    self.tasks
                },
                _ => self.tasks,
            },
            ..self
        }
    }

    /// What the registration of a task comes to.
    pub open spec fn register_verdict(self, tid: u64) -> Result<(), KernelError> {
        if self.tasks.find(tid) is Some {
            Err(KernelError::WrongObject)
        } else if seqs::first_where(self.tasks.tcbs, slot_free()) >= self.tasks.tcbs.len() {
            Err(KernelError::TaskTableFull)
        } else {
            Ok(())
        }
    }

    /// The state after a wake that one processor asked of another: a live task becomes
    /// runnable and is queued where the request arrived.
    pub open spec fn woken_on(self, cpu: CpuId, tid: u64) -> Kernel {
        match self.tasks.find(tid) {
            Some(tcb) if tcb.status.spec_live() => Kernel {
                tasks: self.tasks.with_task(
                    tid,
                    ThreadControlBlock { status: TaskStatus::Runnable, ..tcb },
                ),
                ..self
            }.enqueued(cpu, tid),
            _ => self,
        }
    }

    /// The state after `cpu` did one item of work.
    pub open spec fn worked(self, cpu: CpuId, item: WorkItem) -> Kernel {
        match item {
            WorkItem::Reschedule => self,
            WorkItem::WakeTask { tid } => self.woken_on(cpu, tid.0),
        }
    }

    /// Number of work items that wait for `cpu`.
    pub open spec fn work_for(self, cpu: CpuId) -> nat {
        crate::seqs::count_where(self.pending.work, crate::deferred::listed_for::<WorkItem>(cpu))
    }

    /// The state after `cpu` did its oldest `n` items of work, or all of them.
    pub open spec fn worked_off(self, cpu: CpuId, n: nat) -> Kernel
        decreases n,
    {
        if n == 0 {
            self
        } else {
            match crate::deferred::oldest(self.pending.work, cpu) {
                None => self,
                Some(item) => Kernel {
                    pending: Pending {
                        work: crate::deferred::oldest_taken(self.pending.work, cpu),
                        ..self.pending
                    },
                    ..self
                }.worked(cpu, item).worked_off(cpu, (n - 1) as nat),
            }
        }
    }
}

/// The identity of no call at all.
pub open spec fn zero_terminal() -> TerminalIdentity {
    TerminalIdentity {
        caller_tid: ThreadId(0),
        caller_asid: Asid(0),
        replier_tid: ThreadId(0),
        replier_asid: Asid(0),
        endpoint_index: 0,
        endpoint_generation: 0,
        reply_record_index: 0,
        reply_record_generation: 0,
    }
}

fn no_terminal() -> (r: TerminalIdentity)
    ensures
        r == zero_terminal(),
{
    TerminalIdentity {
        caller_tid: ThreadId(0),
        caller_asid: Asid(0),
        replier_tid: ThreadId(0),
        replier_asid: Asid(0),
        endpoint_index: 0,
        endpoint_generation: 0,
        reply_record_index: 0,
        reply_record_generation: 0,
    }
}

/// `n` copies of `value`.
fn repeated<T: Copy>(value: T, n: usize) -> (r: Vec<T>)
    ensures
        r@.len() == n,
        forall|i: int| 0 <= i < n ==> r@[i] == value,
{
    let mut v: Vec<T> = Vec::new();
    let mut i: usize = 0;
    while i < n
        invariant
            i <= n,
            v@.len() == i,
            forall|j: int| 0 <= j < i ==> v@[j] == value,
        decreases n - i,
    {
        v.push(value);
        i += 1;
    }
    v
}

/// Makes kernels.
pub struct Bootstrap;

impl Bootstrap {
    /// A kernel with the standard limits.
    pub fn init() -> (r: Result<KernelState, KernelError>)
        ensures
            r is Ok,
            r->Ok_0@.is_fresh(KernelCapacityProfile::Standard),
    {
        Bootstrap::init_with_capacity_profile(KernelCapacityProfile::Standard)
    }

    /// A kernel with the limits of `profile`.
    pub fn init_with_capacity_profile(profile: KernelCapacityProfile) -> (r: Result<
        KernelState,
        KernelError,
    >)
        ensures
            r is Ok,
            r->Ok_0@.is_fresh(profile),
    {
        let limits = profile.config();
        let idle = ThreadControlBlock::fresh(IDLE_TID, TaskClass::SystemServer);
        let mut tcbs: Vec<Option<ThreadControlBlock>> = repeated(None, limits.max_tasks);
        tcbs[0] = Some(ThreadControlBlock { status: TaskStatus::Running, ..idle });
        let mut process_cnodes: Vec<ProcessCnode> = Vec::new();
        process_cnodes.push(ProcessCnode { pid: IDLE_TID, cnode: CNodeId(IDLE_TID) });
        let mut cnodes: Vec<CnodeRecord> = Vec::new();
        cnodes.push(CnodeRecord { cnode: CNodeId(IDLE_TID), slots: DEFAULT_CNODE_SLOTS });
        let endpoint = EndpointSlot { mode: None, generation: 0, waiter: None };
        let no_sender: Option<SenderWaiter> = None;
        let terminal = TerminalCell {
            epoch: 0,
            identity: no_terminal(),
            owner: TerminalOwner::Unclaimed,
        };
        let token = DeadlineToken {
            identity: TokenIdentity {
                token_index: 0,
                token_generation: 0,
                terminal_identity: no_terminal(),
            },
            epoch: 0,
            deadline: 0,
            state: TokenState::Vacant,
        };
        let no_post_work: Option<DispatchPostWork> = None;
        let state = KernelState {
            sched: SchedulerState::boot(),
            tasks: TaskSubsystem { tcbs, tls_pending: repeated(None, limits.max_tasks) },
            ipc: IpcSubsystem {
                endpoints: repeated(endpoint, limits.max_endpoints),
                queue: Vec::new(),
                senders: repeated(no_sender, 8 * limits.max_endpoints),
                envelopes: repeated(
                    EnvelopeSlot { envelope: None, generation: 0 },
                    MAX_TRANSFER_ENVELOPES,
                ),
                replies: repeated(
                    ReplySlot { record: None, generation: 0, terminal },
                    MAX_REPLY_CAPS,
                ),
                tokens: repeated(token, MAX_REPLY_CAPS),
                notification_generations: repeated(0u64, MAX_NOTIFICATIONS),
                notification_waiters: repeated(None, MAX_NOTIFICATIONS),
                cancels: Vec::new(),
                cancel_overflow: false,
                active_mappings: Vec::new(),
                telemetry: IpcTelemetry {
                    transfer_records_materialized: 0,
                    queued_recvs: 0,
                    d5_split_reply_materializations: 0,
                },
            },
            caps: CapabilitySubsystem {
                cnodes,
                process_cnodes,
                entries: Vec::new(),
                links: Vec::new(),
            },
            vm: AddressSpaceManager { spaces: Vec::new(), pages: Vec::new() },
            mem: MemorySubsystem {
                memory_objects: repeated(None, MAX_MEMORY_OBJECTS),
                cow: Vec::new(),
                brk: Vec::new(),
                bytes: HashMap::new(),
            },
            faults: FaultSubsystem {
                last_fault: None,
                last_fault_frame: None,
                fault_policy: FaultPolicy::KillTask,
                supervisor_endpoint: None,
            },
            telemetry: TelemetrySubsystem {
                tlb_shootdown_count: 0,
                tlb_shootdown_timeout_count: 0,
                d3_vm_brk_shrink_split_live_calls: 0,
                d3_vm_brk_shrink_split_live_pages_unmapped: 0,
            },
            profile,
            pending: DeferredWork {
                reply: CpuList::empty(),
                send: CpuList::empty(),
                recv: CpuList::empty(),
                death: CpuList::empty(),
                work: CpuList::empty(),
                cursors: repeated(0usize, MAX_CPUS),
                stash: repeated(no_post_work, MAX_CPUS),
                send_deferrals: repeated(None, MAX_CPUS),
            },
        };
        Ok(state)
    }
}

impl Kernel {
    /// A kernel that has just been started: the idle task runs on the only online
    /// processor, and every table is empty.
    pub open spec fn is_fresh(self, profile: KernelCapacityProfile) -> bool {
        let limits = profile.spec_config();
        &&& self.profile == profile
        &&& self.sched.cpus.len() == MAX_CPUS
        &&& self.sched.queue.len() == 0
        &&& self.sched.current_cpu == CpuId(0)
        &&& self.sched.timer == (SchedulerTimer { ticks: 0, quantum_used: 0 })
        &&& forall|c: int|
            0 <= c < MAX_CPUS ==> (#[trigger] self.sched.cpus[c]) == (CpuSlot {
                present: c == 0,
                online: c == 0,
                wake_only: false,
                current: if c == 0 {
                    Some(IDLE_TID)
                } else {
                    None
                },
                current_priority: TaskPriority::Normal,
            })
        &&& self.tasks.tcbs.len() == limits.max_tasks
        &&& self.tasks.tls_pending.len() == limits.max_tasks
        &&& self.tasks.tcbs[0] == Some(
            ThreadControlBlock {
                status: TaskStatus::Running,
                ..ThreadControlBlock::spec_fresh(IDLE_TID, TaskClass::SystemServer)
            },
        )
        &&& forall|i: int| 1 <= i < limits.max_tasks ==> self.tasks.tcbs[i] is None
        &&& forall|i: int| 0 <= i < limits.max_tasks ==> self.tasks.tls_pending[i] is None
        &&& self.ipc.endpoints.len() == limits.max_endpoints
        &&& forall|e: int|
            0 <= e < limits.max_endpoints ==> (#[trigger] self.ipc.endpoints[e]) == (EndpointSlot {
                mode: None,
                generation: 0,
                waiter: None,
            })
        &&& self.ipc.queue.len() == 0
        &&& self.ipc.senders.len() == 8 * limits.max_endpoints
        &&& forall|i: int| 0 <= i < self.ipc.senders.len() ==> self.ipc.senders[i] is None
        &&& self.ipc.envelopes.len() == MAX_TRANSFER_ENVELOPES
        &&& forall|i: int|
            0 <= i < MAX_TRANSFER_ENVELOPES ==> (#[trigger] self.ipc.envelopes[i]) == (
            EnvelopeSlot { envelope: None, generation: 0 })
        &&& self.ipc.replies.len() == MAX_REPLY_CAPS
        &&& forall|i: int|
            0 <= i < MAX_REPLY_CAPS ==> (#[trigger] self.ipc.replies[i]).record is None
                && self.ipc.replies[i].generation == 0 && self.ipc.replies[i].terminal == (
            TerminalCell { epoch: 0, identity: zero_terminal(), owner: TerminalOwner::Unclaimed })
        &&& self.ipc.tokens.len() == MAX_REPLY_CAPS
        &&& forall|i: int|
            0 <= i < MAX_REPLY_CAPS ==> (#[trigger] self.ipc.tokens[i]) == (DeadlineToken {
                identity: TokenIdentity {
                    token_index: 0,
                    token_generation: 0,
                    terminal_identity: zero_terminal(),
                },
                epoch: 0,
                deadline: 0,
                state: TokenState::Vacant,
            })
        &&& self.ipc.notification_generations.len() == MAX_NOTIFICATIONS
        &&& forall|i: int|
            0 <= i < MAX_NOTIFICATIONS ==> self.ipc.notification_generations[i] == 0
        &&& self.ipc.notification_waiters.len() == MAX_NOTIFICATIONS
        &&& forall|i: int|
            0 <= i < MAX_NOTIFICATIONS ==> self.ipc.notification_waiters[i] is None
        &&& self.ipc.cancels.len() == 0
        &&& !self.ipc.cancel_overflow
        &&& self.ipc.active_mappings.len() == 0
        &&& self.ipc.telemetry == (IpcTelemetry {
            transfer_records_materialized: 0,
            queued_recvs: 0,
            d5_split_reply_materializations: 0,
        })
        &&& self.caps.cnodes == seq![
            CnodeRecord { cnode: CNodeId(IDLE_TID), slots: DEFAULT_CNODE_SLOTS },
        ]
        &&& self.caps.process_cnodes == seq![
            ProcessCnode { pid: IDLE_TID, cnode: CNodeId(IDLE_TID) },
        ]
        &&& self.caps.entries.len() == 0
        &&& self.caps.links.len() == 0
        &&& self.vm.spaces.len() == 0
        &&& self.vm.pages.len() == 0
        &&& self.mem.objects.len() == MAX_MEMORY_OBJECTS
        &&& forall|i: int| 0 <= i < MAX_MEMORY_OBJECTS ==> self.mem.objects[i] is None
        &&& self.mem.cow.len() == 0
        &&& self.mem.brk.len() == 0
        &&& self.mem.bytes == Map::<u64, u8>::empty()
        &&& self.faults.last_fault is None
        &&& self.faults.last_fault_frame is None
        &&& self.faults.fault_policy == FaultPolicy::KillTask
        &&& self.faults.supervisor_endpoint is None
        &&& self.telemetry == (TelemetrySubsystem {
            tlb_shootdown_count: 0,
            tlb_shootdown_timeout_count: 0,
            d3_vm_brk_shrink_split_live_calls: 0,
            d3_vm_brk_shrink_split_live_pages_unmapped: 0,
        })
        &&& self.pending.reply.len() == 0
        &&& self.pending.send.len() == 0
        &&& self.pending.recv.len() == 0
        &&& self.pending.death.len() == 0
        &&& self.pending.work.len() == 0
        &&& self.pending.cursors.len() == MAX_CPUS
        &&& forall|c: int| 0 <= c < MAX_CPUS ==> self.pending.cursors[c] == 0
        &&& self.pending.stash.len() == MAX_CPUS
        &&& forall|c: int| 0 <= c < MAX_CPUS ==> self.pending.stash[c] is None
        &&& self.pending.send_deferrals.len() == MAX_CPUS
        &&& forall|c: int| 0 <= c < MAX_CPUS ==> self.pending.send_deferrals[c] is None
    }
}

} // verus!
