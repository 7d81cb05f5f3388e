//! The task domain: task control blocks, their life-cycle states and what is parked
//! on a task while it is blocked.
use vstd::prelude::*;

use crate::ids::{Asid, CapId, CpuId, ThreadId, VirtAddr, IDLE_TID};
use crate::scheduler::TaskPriority;
use crate::seqs;

verus! {

/// Why a task is blocked.
#[derive(Clone, Copy, Debug, PartialEq, Eq, Structural)]
pub enum WaitReason {
    EndpointReceive(CapId),
    EndpointSend(CapId),
    Notification(CapId),
    Futex(VirtAddr),
}

/// Life-cycle state of a task.
#[derive(Clone, Copy, Debug, PartialEq, Eq, Structural)]
pub enum TaskStatus {
    Reserved,
    Runnable,
    Running,
    Blocked(WaitReason),
    Faulted,
    Exited(u64),
    Dead,
}

impl TaskStatus {
    /// A task that still takes part in scheduling: runnable, running or blocked.
    pub open spec fn spec_live(self) -> bool {
        self is Runnable || self is Running || self is Blocked
    }

    #[verifier::when_used_as_spec(spec_live)]
    pub fn live(self) -> (r: bool)
        ensures
            r == self.spec_live(),
    {
        matches!(self, TaskStatus::Runnable | TaskStatus::Running | TaskStatus::Blocked(_))
    }

    /// A task that is over.
    pub open spec fn spec_terminal(self) -> bool {
        self is Exited || self is Dead
    }

    #[verifier::when_used_as_spec(spec_terminal)]
    pub fn terminal(self) -> (r: bool)
        ensures
            r == self.spec_terminal(),
    {
        matches!(self, TaskStatus::Exited(_) | TaskStatus::Dead)
    }

    pub open spec fn spec_receiving(self) -> bool {
        self matches TaskStatus::Blocked(WaitReason::EndpointReceive(_))
    }

    /// Blocked in an endpoint receive.
    #[verifier::when_used_as_spec(spec_receiving)]
    pub fn receiving(self) -> (r: bool)
        ensures
            r == self.spec_receiving(),
    {
        matches!(self, TaskStatus::Blocked(WaitReason::EndpointReceive(_)))
    }

    pub open spec fn spec_sending(self) -> bool {
        self matches TaskStatus::Blocked(WaitReason::EndpointSend(_))
    }

    /// Blocked in an endpoint send.
    #[verifier::when_used_as_spec(spec_sending)]
    pub fn sending(self) -> (r: bool)
        ensures
            r == self.spec_sending(),
    {
        matches!(self, TaskStatus::Blocked(WaitReason::EndpointSend(_)))
    }

    pub open spec fn spec_in_futex(self) -> bool {
        self matches TaskStatus::Blocked(WaitReason::Futex(_))
    }

    /// Blocked on a futex word.
    #[verifier::when_used_as_spec(spec_in_futex)]
    pub fn in_futex(self) -> (r: bool)
        ensures
            r == self.spec_in_futex(),
    {
        matches!(self, TaskStatus::Blocked(WaitReason::Futex(_)))
    }
}

/// What kind of program a task runs.
#[derive(Clone, Copy, Debug, PartialEq, Eq, Structural)]
pub enum TaskClass {
    SystemServer,
    Driver,
    App,
}

impl TaskClass {
    pub open spec fn spec_priority(self) -> TaskPriority {
        match self {
            TaskClass::SystemServer => TaskPriority::High,
            TaskClass::Driver | TaskClass::App => TaskPriority::Normal,
        }
    }

    /// System servers run with high priority, all others with normal priority.
    #[verifier::when_used_as_spec(spec_priority)]
    pub fn priority(self) -> (r: TaskPriority)
        ensures
            r == self.spec_priority(),
    {
        match self {
            TaskClass::SystemServer => TaskPriority::High,
            TaskClass::Driver | TaskClass::App => TaskPriority::Normal,
        }
    }
}

/// What the kernel does with a task that faults.
#[derive(Clone, Copy, Debug, PartialEq, Eq, Structural)]
pub enum FaultPolicy {
    KillTask,
    NotifySupervisor,
}

/// Saved user registers of a task that is not running.
#[derive(Clone, Copy, Debug, PartialEq, Eq)]
pub struct UserRegisterContext {
    pub instruction_ptr: VirtAddr,
    pub stack_ptr: VirtAddr,
    /// Lanes in which a system call returns.
    pub ret0: u64,
    pub ret1: u64,
    pub ret2: u64,
    pub ret_error: u64,
    pub user_gprs: [u64; 15],
}

impl UserRegisterContext {
    /// The context with its return lanes cleared.
    pub open spec fn spec_returns_cleared(self) -> UserRegisterContext {
        UserRegisterContext { ret0: 0, ret1: 0, ret2: 0, ret_error: 0, ..self }
    }

    #[verifier::when_used_as_spec(spec_returns_cleared)]
    pub fn returns_cleared(self) -> (r: UserRegisterContext)
        ensures
            r == self.spec_returns_cleared(),
    {
        UserRegisterContext { ret0: 0, ret1: 0, ret2: 0, ret_error: 0, ..self }
    }
}

/// Kernel-side switch state of a task.
#[derive(Clone, Copy, Debug, PartialEq, Eq, Structural)]
pub struct KernelContext {
    pub initialized: bool,
    pub stack_base: Option<VirtAddr>,
    pub stack_top: Option<VirtAddr>,
}

/// Which blocked system call a completion answers.
#[derive(Clone, Copy, Debug, PartialEq, Eq, Structural)]
pub enum BlockedSyscallClass {
    IpcRecv,
    IpcSend,
}

/// Result of a blocked system call, parked until the task resumes.
#[derive(Clone, Copy, Debug, PartialEq, Eq, Structural)]
pub struct BlockedSyscallCompletion {
    pub syscall_class: BlockedSyscallClass,
    pub result: u64,
    pub tid: u64,
    pub asid: Asid,
    pub blocked_generation: u64,
}

/// Result word of a send that succeeded while its sender was blocked.
pub const SEND_COMPLETION_OK: u64 = 0;

/// Result word of a blocked operation whose deadline passed.
pub const SEND_COMPLETION_TIMED_OUT: u64 = 9;

/// Result word of a call whose server died.
pub const CALL_COMPLETION_SERVER_DIED: u64 = 10;

/// Which receive interface a blocked receiver used.
#[derive(Clone, Copy, Debug, PartialEq, Eq, Structural)]
pub enum RecvAbiVariant {
    Legacy,
    RecvV2,
}

/// Where a blocked receiver wants its message.
#[derive(Clone, Copy, Debug, PartialEq, Eq, Structural)]
pub struct BlockedRecvState {
    pub recv_abi: RecvAbiVariant,
    pub payload_user_ptr: u64,
    pub payload_user_len: u64,
    pub meta_user_ptr: u64,
}

/// The reply a server owes: the record, bound to the server's incarnation.
#[derive(Clone, Copy, Debug, PartialEq, Eq, Structural)]
pub struct ServerReplyLink {
    pub server_tid: u64,
    pub server_asid: Asid,
    pub reply_record_index: usize,
    pub reply_record_generation: u64,
}

/// A register snapshot staged by an interrupt, good for one resume of one incarnation.
#[derive(Clone, Copy, Debug, PartialEq, Eq, Structural)]
pub struct AsyncPreemptTag {
    pub tid: u64,
    pub asid: Option<Asid>,
}

/// How a resume boundary may restore an incoming task.
#[derive(Clone, Copy, Debug, PartialEq, Eq, Structural)]
pub enum AsyncResumeClass {
    /// No snapshot was staged.
    NotStaged,
    /// The staged snapshot belongs to the incoming incarnation.
    Verbatim,
    /// The staged snapshot belongs to another incarnation.
    Stale,
}

/// The clock a reply deadline is measured with.
#[derive(Clone, Copy, Debug, PartialEq, Eq, Structural)]
pub enum ReplyDeadlineClock {
    ProductionTick,
    OracleHardware,
}

/// Names one call that waits for a reply.
#[derive(Clone, Copy, Debug, PartialEq, Eq, Structural)]
pub struct TerminalIdentity {
    pub caller_tid: ThreadId,
    pub caller_asid: Asid,
    pub replier_tid: ThreadId,
    pub replier_asid: Asid,
    pub endpoint_index: usize,
    pub endpoint_generation: u64,
    pub reply_record_index: usize,
    pub reply_record_generation: u64,
}

/// Names one registration in the deadline store.
#[derive(Clone, Copy, Debug, PartialEq, Eq, Structural)]
pub struct TokenIdentity {
    pub token_index: usize,
    pub token_generation: u64,
    pub terminal_identity: TerminalIdentity,
}

/// A task's reference to its armed reply deadline.
#[derive(Clone, Copy, Debug, PartialEq, Eq, Structural)]
pub struct DeadlineHandle {
    pub identity: TokenIdentity,
    pub epoch: u64,
}

/// One task.
#[derive(Clone, Copy, Debug, PartialEq, Eq)]
pub struct ThreadControlBlock {
    pub tid: ThreadId,
    pub thread_group_id: ThreadId,
    pub asid: Option<Asid>,
    pub status: TaskStatus,
    pub class: Option<TaskClass>,
    pub cpu_affinity: Option<CpuId>,
    /// A slot set aside for a task that is still being spawned.
    pub spawn_reservation: bool,
    pub user_context: UserRegisterContext,
    pub tls_ptr: Option<VirtAddr>,
    pub kernel_context: KernelContext,
    pub ipc_timeout_deadline: Option<u64>,
    pub ipc_timeout_fired: bool,
    pub reply_timeout_token: Option<DeadlineHandle>,
    pub reply_timeout_clock: ReplyDeadlineClock,
    pub blocked_send_generation: u64,
    pub blocked_recv_generation: u64,
    pub pending_syscall_completion: Option<BlockedSyscallCompletion>,
    pub blocked_recv_state: Option<BlockedRecvState>,
    pub server_reply_link: Option<ServerReplyLink>,
    pub async_preempt: Option<AsyncPreemptTag>,
}

impl ThreadControlBlock {
    /// A fresh, runnable task that is its own group leader.
    pub open spec fn spec_fresh(tid: u64, class: TaskClass) -> ThreadControlBlock {
        ThreadControlBlock {
            tid: ThreadId(tid),
            thread_group_id: ThreadId(tid),
            asid: None,
            status: TaskStatus::Runnable,
            class: Some(class),
            cpu_affinity: None,
            spawn_reservation: false,
            user_context: UserRegisterContext {
                instruction_ptr: VirtAddr(0),
                stack_ptr: VirtAddr(0),
                ret0: 0,
                ret1: 0,
                ret2: 0,
                ret_error: 0,
                user_gprs: [0u64, 0, 0, 0, 0, 0, 0, 0, 0, 0, 0, 0, 0, 0, 0],
            },
            tls_ptr: None,
            kernel_context: KernelContext { initialized: false, stack_base: None, stack_top: None },
            ipc_timeout_deadline: None,
            ipc_timeout_fired: false,
            reply_timeout_token: None,
            reply_timeout_clock: ReplyDeadlineClock::ProductionTick,
            blocked_send_generation: 0,
            blocked_recv_generation: 0,
            pending_syscall_completion: None,
            blocked_recv_state: None,
            server_reply_link: None,
            async_preempt: None,
        }
    }

    /// A fresh, runnable task that is its own group leader.
    pub fn fresh(tid: u64, class: TaskClass) -> (r: ThreadControlBlock)
        ensures
            r == ThreadControlBlock::spec_fresh(tid, class),
    {
        ThreadControlBlock {
            tid: ThreadId(tid),
            thread_group_id: ThreadId(tid),
            asid: None,
            status: TaskStatus::Runnable,
            class: Some(class),
            cpu_affinity: None,
            spawn_reservation: false,
            user_context: UserRegisterContext {
                instruction_ptr: VirtAddr(0),
                stack_ptr: VirtAddr(0),
                ret0: 0,
                ret1: 0,
                ret2: 0,
                ret_error: 0,
                user_gprs: [0u64, 0, 0, 0, 0, 0, 0, 0, 0, 0, 0, 0, 0, 0, 0],
            },
            tls_ptr: None,
            kernel_context: KernelContext { initialized: false, stack_base: None, stack_top: None },
            ipc_timeout_deadline: None,
            ipc_timeout_fired: false,
            reply_timeout_token: None,
            reply_timeout_clock: ReplyDeadlineClock::ProductionTick,
            blocked_send_generation: 0,
            blocked_recv_generation: 0,
            pending_syscall_completion: None,
            blocked_recv_state: None,
            server_reply_link: None,
            async_preempt: None,
        }
    }
}

impl BlockedSyscallCompletion {
    /// Does the completion answer the block that `tcb` is in?
    pub open spec fn spec_matches(self, tcb: ThreadControlBlock) -> bool {
        &&& self.tid == tcb.tid.0
        &&& Some(self.asid) == tcb.asid
        &&& self.blocked_generation == match self.syscall_class {
            BlockedSyscallClass::IpcSend => tcb.blocked_send_generation,
            BlockedSyscallClass::IpcRecv => tcb.blocked_recv_generation,
        }
    }

    pub fn matches_tcb(&self, tcb: &ThreadControlBlock) -> (r: bool)
        ensures
            r == self.spec_matches(*tcb),
    {
        let generation: u64 = match self.syscall_class {
            BlockedSyscallClass::IpcSend => tcb.blocked_send_generation,
            BlockedSyscallClass::IpcRecv => tcb.blocked_recv_generation,
        };
        self.tid == tcb.tid.0 && Some(self.asid) == tcb.asid && self.blocked_generation
            == generation
    }
}

/// Slots that hold a task with number `tid`.
pub open spec fn has_tid(tid: u64) -> spec_fn(Option<ThreadControlBlock>) -> bool {
    |slot: Option<ThreadControlBlock>| slot is Some && slot->0.tid.0 == tid
}

/// Slots that hold the incarnation of `tid` with address space `asid`.
pub open spec fn is_incarnation(tid: u64, asid: Option<Asid>) -> spec_fn(
    Option<ThreadControlBlock>,
) -> bool {
    |slot: Option<ThreadControlBlock>| slot is Some && slot->0.tid.0 == tid && slot->0.asid == asid
}

/// Entries of the restore table that name `tid`.
pub open spec fn pends(tid: u64) -> spec_fn(Option<ThreadId>) -> bool {
    |slot: Option<ThreadId>| slot == Some(ThreadId(tid))
}

/// An exact status change.
#[derive(Clone, Copy, Debug, PartialEq, Eq, Structural)]
pub enum TaskTransition {
    /// A task taken from the run queue starts to run.
    DispatchIncoming,
    /// The current task goes on running.
    ContinueCurrent,
    /// A task that was just dispatched goes back to runnable.
    RollbackDispatchedIncoming,
}

impl TaskTransition {
    pub open spec fn spec_from(self) -> TaskStatus {
        match self {
            TaskTransition::DispatchIncoming => TaskStatus::Runnable,
            TaskTransition::ContinueCurrent => TaskStatus::Running,
            TaskTransition::RollbackDispatchedIncoming => TaskStatus::Running,
        }
    }

    /// The status a task must have before the change.
    #[verifier::when_used_as_spec(spec_from)]
    pub fn from(self) -> (r: TaskStatus)
        ensures
            r == self.spec_from(),
    {
        match self {
            TaskTransition::DispatchIncoming => TaskStatus::Runnable,
            TaskTransition::ContinueCurrent => TaskStatus::Running,
            TaskTransition::RollbackDispatchedIncoming => TaskStatus::Running,
        }
    }

    pub open spec fn spec_to(self) -> TaskStatus {
        match self {
            TaskTransition::DispatchIncoming => TaskStatus::Running,
            TaskTransition::ContinueCurrent => TaskStatus::Running,
            TaskTransition::RollbackDispatchedIncoming => TaskStatus::Runnable,
        }
    }

    /// The status a task has after the change.
    #[verifier::when_used_as_spec(spec_to)]
    pub fn to(self) -> (r: TaskStatus)
        ensures
            r == self.spec_to(),
    {
        match self {
            TaskTransition::DispatchIncoming => TaskStatus::Running,
            TaskTransition::ContinueCurrent => TaskStatus::Running,
            TaskTransition::RollbackDispatchedIncoming => TaskStatus::Runnable,
        }
    }
}

/// Why a status change was refused.
#[derive(Clone, Copy, Debug, PartialEq, Eq, Structural)]
pub enum TransitionRefusal {
    TaskMissing,
    WrongIncarnation,
    WrongStatus,
}

/// Everything a resume boundary takes from a task in one step.
#[derive(Clone, Copy, Debug, PartialEq, Eq)]
pub struct ThreadRestoreFacts {
    pub context: UserRegisterContext,
    pub tls: Option<u64>,
    pub send_completion: Option<BlockedSyscallCompletion>,
    pub recv_completion: Option<BlockedSyscallCompletion>,
}

/// The state of the task domain.
#[verifier::ext_equal]
pub struct Tasks {
    pub tcbs: Seq<Option<ThreadControlBlock>>,
    pub tls_pending: Seq<Option<ThreadId>>,
}

impl Tasks {
    /// Slot of the first task with number `tid`; the table's length if there is none.
    pub open spec fn slot(self, tid: u64) -> int {
        seqs::first_where(self.tcbs, has_tid(tid))
    }

    /// The task with number `tid`.
    pub open spec fn find(self, tid: u64) -> Option<ThreadControlBlock> {
        if self.slot(tid) < self.tcbs.len() {
            self.tcbs[self.slot(tid)]
        } else {
            None
        }
    }

    /// Slot of the incarnation of `tid` with address space `asid`; the length if there is none.
    pub open spec fn exact_slot(self, tid: u64, asid: Option<Asid>) -> int {
        seqs::first_where(self.tcbs, is_incarnation(tid, asid))
    }

    /// The incarnation of `tid` with address space `asid`.
    pub open spec fn exact(self, tid: u64, asid: Option<Asid>) -> Option<ThreadControlBlock> {
        if self.exact_slot(tid, asid) < self.tcbs.len() {
            self.tcbs[self.exact_slot(tid, asid)]
        } else {
            None
        }
    }

    /// The state with slot `i` holding `tcb`.
    pub open spec fn with(self, i: int, tcb: ThreadControlBlock) -> Tasks {
        Tasks { tcbs: self.tcbs.update(i, Some(tcb)), ..self }
    }

    /// The state with the task of number `tid` replaced by `tcb`.
    pub open spec fn with_task(self, tid: u64, tcb: ThreadControlBlock) -> Tasks {
        self.with(self.slot(tid), tcb)
    }

    /// The state with the exact incarnation replaced by `tcb`.
    pub open spec fn with_exact(self, tid: u64, asid: Option<Asid>, tcb: ThreadControlBlock) -> Tasks {
        self.with(self.exact_slot(tid, asid), tcb)
    }

    /// Address space of the task with number `tid`.
    pub open spec fn asid_of(self, tid: u64) -> Option<Asid> {
        match self.find(tid) {
            Some(tcb) => tcb.asid,
            None => None,
        }
    }

    /// Class of the task with number `tid`.
    pub open spec fn class_of(self, tid: u64) -> Option<TaskClass> {
        match self.find(tid) {
            Some(tcb) => tcb.class,
            None => None,
        }
    }

    /// Home processor of the task with number `tid`.
    pub open spec fn affinity_of(self, tid: u64) -> Option<CpuId> {
        match self.find(tid) {
            Some(tcb) => tcb.cpu_affinity,
            None => None,
        }
    }

    /// Process number of the task with number `tid`.
    pub open spec fn group_of(self, tid: u64) -> Option<u64> {
        match self.find(tid) {
            Some(tcb) => Some(tcb.thread_group_id.0),
            None => None,
        }
    }

    /// Priority with which a woken task is queued.
    pub open spec fn wake_priority(self, tid: u64) -> TaskPriority {
        if self.class_of(tid) == Some(TaskClass::SystemServer) {
            TaskPriority::High
        } else {
            TaskPriority::Normal
        }
    }

    /// Is a thread-local-storage restore pending for `tid`?
    pub open spec fn tls_is_pending(self, tid: u64) -> bool {
        seqs::any_where(self.tls_pending, pends(tid))
    }

    /// The state after the pending restore of `tid`, if any, was taken.
    pub open spec fn tls_taken(self, tid: u64) -> Tasks {
        if self.tls_is_pending(tid) {
            Tasks {
                tls_pending: self.tls_pending.update(
                    seqs::first_where(self.tls_pending, pends(tid)),
                    None,
                ),
                ..self
            }
        } else {
            self
        }
    }

    /// Storage base that a resume of `tid` installs, when its control block is `tcb`.
    pub open spec fn tls_request(self, tcb: ThreadControlBlock) -> Option<u64> {
        if self.tls_is_pending(tcb.tid.0) {
            match tcb.tls_ptr {
                Some(ptr) => Some(ptr.0),
                None => None,
            }
        } else {
            None
        }
    }

    /// Everything that a resume of `tcb` takes from the task domain.
    pub open spec fn restore_facts(self, tcb: ThreadControlBlock) -> ThreadRestoreFacts {
        ThreadRestoreFacts {
            context: tcb.user_context,
            tls: self.tls_request(tcb),
            send_completion: completion_out(tcb, BlockedSyscallClass::IpcSend),
            recv_completion: completion_out(
                completion_taken(tcb, BlockedSyscallClass::IpcSend),
                BlockedSyscallClass::IpcRecv,
            ),
        }
    }

    /// The state after a resume of the task with number `tid` took its facts.
    pub open spec fn restore_taken(self, tid: u64) -> Tasks {
        match self.find(tid) {
            Some(tcb) => self.tls_taken(tid).with_task(
                tid,
                completion_taken(
                    completion_taken(tcb, BlockedSyscallClass::IpcSend),
                    BlockedSyscallClass::IpcRecv,
                ),
            ),
            None => self,
        }
    }

    /// What a status change comes to.
    pub open spec fn transition_verdict(
        self,
        tid: u64,
        expect_asid: Option<Asid>,
        transition: TaskTransition,
    ) -> Result<(), TransitionRefusal> {
        match self.find(tid) {
            None => Err(TransitionRefusal::TaskMissing),
            Some(tcb) => if expect_asid is Some && tcb.asid != expect_asid {
                Err(TransitionRefusal::WrongIncarnation)
            } else if tcb.status != transition.spec_from() {
                Err(TransitionRefusal::WrongStatus)
            } else {
                Ok(())
            },
        }
    }

    /// What a dispatch transition comes to; the idle task may be runnable or running before it.
    pub open spec fn dispatch_verdict(self, tid: u64, transition: TaskTransition) -> Result<
        (),
        TransitionRefusal,
    > {
        match self.find(tid) {
            Some(tcb) if tid == IDLE_TID && (tcb.status is Runnable || tcb.status is Running) => Ok(
                (),
            ),
            _ => self.transition_verdict(tid, None, transition),
        }
    }

    /// The state after the task with number `tid` took the status that `transition` leads to.
    pub open spec fn transitioned(self, tid: u64, transition: TaskTransition) -> Tasks {
        self.with_task(
            tid,
            ThreadControlBlock { status: transition.spec_to(), ..self.find(tid)->0 },
        )
    }
}

/// Does `tcb` hold a parked completion of `class`?
pub open spec fn holds_completion(tcb: ThreadControlBlock, class: BlockedSyscallClass) -> bool {
    tcb.pending_syscall_completion is Some && tcb.pending_syscall_completion->0.syscall_class
        == class
}

/// The completion of `class` that a resume of `tcb` hands out.
pub open spec fn completion_out(tcb: ThreadControlBlock, class: BlockedSyscallClass) -> Option<
    BlockedSyscallCompletion,
> {
    if holds_completion(tcb, class) && tcb.pending_syscall_completion->0.spec_matches(tcb) {
        tcb.pending_syscall_completion
    } else {
        None
    }
}

/// The control block after its completion of `class` was taken.
pub open spec fn completion_taken(tcb: ThreadControlBlock, class: BlockedSyscallClass) -> ThreadControlBlock {
    if !holds_completion(tcb, class) {
        tcb
    } else if !tcb.pending_syscall_completion->0.spec_matches(tcb) {
        ThreadControlBlock { pending_syscall_completion: None, ..tcb }
    } else {
        ThreadControlBlock {
            pending_syscall_completion: None,
            ipc_timeout_fired: false,
            blocked_recv_state: if class is IpcRecv {
                None
            } else {
                tcb.blocked_recv_state
            },
            ..tcb
        }
    }
}

/// Takes the completion of `class` off a control block.  A completion of the other
/// class stays; one that answers an older block is dropped.
pub fn take_completion(tcb: ThreadControlBlock, class: BlockedSyscallClass) -> (r: (
    ThreadControlBlock,
    Option<BlockedSyscallCompletion>,
))
    ensures
        r.0 == completion_taken(tcb, class),
        r.1 == completion_out(tcb, class),
{
    match tcb.pending_syscall_completion {
        None => (tcb, None),
        Some(pending) => {
            if pending.syscall_class != class {
                return (tcb, None);
            }
            if !pending.matches_tcb(&tcb) {
                return (ThreadControlBlock { pending_syscall_completion: None, ..tcb }, None);
            }
            let recv_state = if class == BlockedSyscallClass::IpcRecv {
                None
            } else {
                tcb.blocked_recv_state
            };
            (
                ThreadControlBlock {
                    pending_syscall_completion: None,
                    ipc_timeout_fired: false,
                    blocked_recv_state: recv_state,
                    ..tcb
                },
                Some(pending),
            )
        },
    }
}

/// May `link` be put on `tcb`?
pub open spec fn link_fits(tcb: ThreadControlBlock, link: ServerReplyLink) -> bool {
    tcb.status.spec_live() && (tcb.server_reply_link is None || tcb.server_reply_link == Some(link))
}

/// Whether `link` may be put on `tcb`: the task lives and owes no other reply.
pub fn server_reply_link_fits(tcb: &ThreadControlBlock, link: ServerReplyLink) -> (r: bool)
    ensures
        r == link_fits(*tcb, link),
{
    let vacant = match tcb.server_reply_link {
        None => true,
        Some(existing) => existing == link,
    };
    tcb.status.live() && vacant
}

/// The task domain.
pub struct TaskSubsystem {
    pub tcbs: Vec<Option<ThreadControlBlock>>,
    pub tls_pending: Vec<Option<ThreadId>>,
}

impl View for TaskSubsystem {
    type V = Tasks;

    open spec fn view(&self) -> Tasks {
        Tasks { tcbs: self.tcbs@, tls_pending: self.tls_pending@ }
    }
}

impl TaskSubsystem {
    /// Slot and contents of the task with number `tid`.
    pub fn lookup(&self, tid: u64) -> (r: Option<(usize, ThreadControlBlock)>)
        ensures
            r is Some <==> self@.find(tid) is Some,
            r matches Some((i, tcb)) ==> i == self@.slot(tid) && i < self.tcbs@.len()
                && self@.find(tid) == Some(tcb) && self.tcbs@[i as int] == Some(tcb) && tcb.tid.0
                == tid,
    {
        let mut i: usize = 0;
        while i < self.tcbs.len()
            invariant
                i <= self.tcbs@.len(),
                forall|j: int| 0 <= j < i ==> !has_tid(tid)(#[trigger] self.tcbs@[j]),
            decreases self.tcbs@.len() - i,
        {
            if let Some(tcb) = self.tcbs[i] {
                if tcb.tid.0 == tid {
                    proof {
                        seqs::lemma_first_where_is(self.tcbs@, has_tid(tid), i as int);
                    }
                    return Some((i, tcb));
                }
            }
            i += 1;
        }
        proof {
            seqs::lemma_first_where_is(self.tcbs@, has_tid(tid), i as int);
        }
        None
    }

    /// The task with number `tid`.
    pub fn get(&self, tid: u64) -> (r: Option<ThreadControlBlock>)
        ensures
            r == self@.find(tid),
            r matches Some(tcb) ==> tcb.tid.0 == tid,
    {
        match self.lookup(tid) {
            Some((_, tcb)) => Some(tcb),
            None => None,
        }
    }

    /// Slot and contents of the incarnation of `tid` with address space `asid`.
    pub fn lookup_exact(&self, tid: u64, asid: Option<Asid>) -> (r: Option<
        (usize, ThreadControlBlock),
    >)
        ensures
            r is Some <==> self@.exact(tid, asid) is Some,
            r matches Some((i, tcb)) ==> i == self@.exact_slot(tid, asid) && i < self.tcbs@.len()
                && self@.exact(tid, asid) == Some(tcb) && self.tcbs@[i as int] == Some(tcb)
                && tcb.tid.0 == tid && tcb.asid == asid,
    {
        let mut i: usize = 0;
        while i < self.tcbs.len()
            invariant
                i <= self.tcbs@.len(),
                forall|j: int| 0 <= j < i ==> !is_incarnation(tid, asid)(#[trigger] self.tcbs@[j]),
            decreases self.tcbs@.len() - i,
        {
            if let Some(tcb) = self.tcbs[i] {
                if tcb.tid.0 == tid && tcb.asid == asid {
                    proof {
                        seqs::lemma_first_where_is(self.tcbs@, is_incarnation(tid, asid), i as int);
                    }
                    return Some((i, tcb));
                }
            }
            i += 1;
        }
        proof {
            seqs::lemma_first_where_is(self.tcbs@, is_incarnation(tid, asid), i as int);
        }
        None
    }

    /// Replaces the contents of slot `i`.
    pub fn put(&mut self, i: usize, tcb: ThreadControlBlock)
        requires
            i < old(self).tcbs@.len(),
        ensures
            final(self)@ == old(self)@.with(i as int, tcb),
    {
        self.tcbs[i] = Some(tcb);
    }

    /// Address space of the task with number `tid`.
    pub fn asid_of(&self, tid: u64) -> (r: Option<Asid>)
        ensures
            r == self@.asid_of(tid),
    {
        match self.get(tid) {
            Some(tcb) => tcb.asid,
            None => None,
        }
    }

    /// Class of the task with number `tid`.
    pub fn class_of(&self, tid: u64) -> (r: Option<TaskClass>)
        ensures
            r == self@.class_of(tid),
    {
        match self.get(tid) {
            Some(tcb) => tcb.class,
            None => None,
        }
    }

    /// Home processor of the task with number `tid`.
    pub fn affinity_of(&self, tid: u64) -> (r: Option<CpuId>)
        ensures
            r == self@.affinity_of(tid),
    {
        match self.get(tid) {
            Some(tcb) => tcb.cpu_affinity,
            None => None,
        }
    }

    /// Process number of the task with number `tid`.
    pub fn group_of(&self, tid: u64) -> (r: Option<u64>)
        ensures
            r == self@.group_of(tid),
    {
        match self.get(tid) {
            Some(tcb) => Some(tcb.thread_group_id.0),
            None => None,
        }
    }

    /// Priority with which a woken task is queued.
    pub fn wake_priority(&self, tid: u64) -> (r: TaskPriority)
        ensures
            r == self@.wake_priority(tid),
    {
        match self.class_of(tid) {
            Some(TaskClass::SystemServer) => TaskPriority::High,
            _ => TaskPriority::Normal,
        }
    }

    /// Takes the pending storage restore of `tid`; says whether there was one.
    pub fn take_tls_pending(&mut self, tid: u64) -> (r: bool)
        ensures
            r == old(self)@.tls_is_pending(tid),
            final(self)@ == old(self)@.tls_taken(tid),
    {
        let mut i: usize = 0;
        while i < self.tls_pending.len()
            invariant
                *self == *old(self),
                i <= self.tls_pending@.len(),
                forall|j: int| 0 <= j < i ==> !pends(tid)(#[trigger] self.tls_pending@[j]),
            decreases self.tls_pending@.len() - i,
        {
            if self.tls_pending[i] == Some(ThreadId(tid)) {
                proof {
                    seqs::lemma_first_where_is(self.tls_pending@, pends(tid), i as int);
                }
                self.tls_pending[i] = None;
                return true;
            }
            i += 1;
        }
        proof {
            seqs::lemma_first_where_is(self.tls_pending@, pends(tid), i as int);
        }
        false
    }

    /// Takes the storage base that a resume of the task `tcb` installs.
    pub fn take_tls_request(&mut self, tcb: ThreadControlBlock) -> (r: Option<u64>)
        ensures
            r == old(self)@.tls_request(tcb),
            final(self)@ == old(self)@.tls_taken(tcb.tid.0),
    {
        if self.take_tls_pending(tcb.tid.0) {
            match tcb.tls_ptr {
                Some(ptr) => Some(ptr.0),
                None => None,
            }
        } else {
            None
        }
    }

    /// Takes everything that a resume of the task with number `tid` needs.
    pub fn take_thread_restore_facts(&mut self, tid: u64) -> (r: Option<ThreadRestoreFacts>)
        ensures
            match old(self)@.find(tid) {
                Some(tcb) => r == Some(old(self)@.restore_facts(tcb)),
                None => r is None,
            },
            final(self)@ == old(self)@.restore_taken(tid),
    {
        match self.lookup(tid) {
            None => None,
            Some((i, tcb)) => {
                let tls = self.take_tls_request(tcb);
                let (sent, send_completion) = take_completion(tcb, BlockedSyscallClass::IpcSend);
                let (received, recv_completion) = take_completion(
                    sent,
                    BlockedSyscallClass::IpcRecv,
                );
                self.put(i, received);
                Some(
                    ThreadRestoreFacts {
                        context: tcb.user_context,
                        tls,
                        send_completion,
                        recv_completion,
                    },
                )
            },
        }
    }

    /// Performs an exact status change, or nothing at all.
    pub fn apply_task_transition(
        &mut self,
        tid: u64,
        expect_asid: Option<Asid>,
        transition: TaskTransition,
    ) -> (r: Result<(), TransitionRefusal>)
        ensures
            r == old(self)@.transition_verdict(tid, expect_asid, transition),
            final(self)@ == if r is Ok {
                old(self)@.transitioned(tid, transition)
            } else {
                old(self)@
            },
    {
        match self.lookup(tid) {
            None => Err(TransitionRefusal::TaskMissing),
            Some((i, tcb)) => {
                if expect_asid.is_some() && tcb.asid != expect_asid {
                    return Err(TransitionRefusal::WrongIncarnation);
                }
                if tcb.status != transition.from() {
                    return Err(TransitionRefusal::WrongStatus);
                }
                self.put(i, ThreadControlBlock { status: transition.to(), ..tcb });
                Ok(())
            },
        }
    }

    /// Performs a dispatch transition; the idle task is let in whether runnable or running.
    pub fn apply_dispatch_transition(&mut self, tid: u64, transition: TaskTransition) -> (r: Result<
        (),
        TransitionRefusal,
    >)
        ensures
            r == old(self)@.dispatch_verdict(tid, transition),
            final(self)@ == if r is Ok {
                old(self)@.transitioned(tid, transition)
            } else {
                old(self)@
            },
    {
        if tid == IDLE_TID {
            if let Some((i, tcb)) = self.lookup(tid) {
                if matches!(tcb.status, TaskStatus::Runnable | TaskStatus::Running) {
                    self.put(i, ThreadControlBlock { status: transition.to(), ..tcb });
                    return Ok(());
                }
            }
        }
        self.apply_task_transition(tid, None, transition)
    }

    /// Clears the return lanes of the task with number `tid`; an absent task is left alone.
    pub fn clear_blocked_recv_return_regs(&mut self, tid: u64)
        ensures
            final(self)@ == match old(self)@.find(tid) {
                Some(tcb) => old(self)@.with_task(
                    tid,
                    ThreadControlBlock {
                        user_context: tcb.user_context.spec_returns_cleared(),
                        ..tcb
                    },
                ),
                None => old(self)@,
            },
    {
        if let Some((i, tcb)) = self.lookup(tid) {
            let user_context = tcb.user_context.returns_cleared();
            self.put(i, ThreadControlBlock { user_context, ..tcb });
        }
    }
}

/// Replacing the task with number `tid` by one of the same number moves no task, and no
/// other task is affected.
pub proof fn lemma_replaced(tasks: Tasks, tid: u64, tcb: ThreadControlBlock)
    requires
        tasks.find(tid) is Some,
        tcb.tid.0 == tid,
    ensures
        tasks.with_task(tid, tcb).slot(tid) == tasks.slot(tid),
        tasks.with_task(tid, tcb).find(tid) == Some(tcb),
        tasks.with_task(tid, tcb).tcbs.len() == tasks.tcbs.len(),
        forall|other: u64|
            other != tid ==> tasks.with_task(tid, tcb).slot(other) == tasks.slot(other)
                && #[trigger] tasks.with_task(tid, tcb).find(other) == tasks.find(other),
{
    let i = tasks.slot(tid);
    let after = tasks.with_task(tid, tcb);
    seqs::lemma_first_where(tasks.tcbs, has_tid(tid));
    assert forall|j: int| 0 <= j < i implies !has_tid(tid)(#[trigger] after.tcbs[j]) by {
        assert(after.tcbs[j] == tasks.tcbs[j]);
    }
    seqs::lemma_first_where_is(after.tcbs, has_tid(tid), i);
    assert forall|other: u64| other != tid implies after.slot(other) == tasks.slot(other)
        && #[trigger] after.find(other) == tasks.find(other) by {
        seqs::lemma_first_where(tasks.tcbs, has_tid(other));
        let k = tasks.slot(other);
        assert forall|j: int| 0 <= j < k implies !has_tid(other)(#[trigger] after.tcbs[j]) by {
            if j != i {
                assert(after.tcbs[j] == tasks.tcbs[j]);
            }
        }
        if k < tasks.tcbs.len() {
            assert(has_tid(tid)(tasks.tcbs[i]) && has_tid(other)(tasks.tcbs[k]));
            assert(after.tcbs[k] == tasks.tcbs[k]);
        }
        seqs::lemma_first_where_is(after.tcbs, has_tid(other), k);
    }
}

/// The task that a number names is the incarnation of its own address space.
pub proof fn lemma_found_is_exact(tasks: Tasks, tid: u64)
    requires
        tasks.find(tid) is Some,
    ensures
        tasks.find(tid)->0.tid.0 == tid,
        tasks.exact_slot(tid, tasks.find(tid)->0.asid) == tasks.slot(tid),
        tasks.exact(tid, tasks.find(tid)->0.asid) == tasks.find(tid),
{
    let i = tasks.slot(tid);
    let asid = tasks.find(tid)->0.asid;
    seqs::lemma_first_where(tasks.tcbs, has_tid(tid));
    assert forall|j: int| 0 <= j < i implies !is_incarnation(tid, asid)(#[trigger] tasks.tcbs[j]) by {
        assert(!has_tid(tid)(tasks.tcbs[j]));
    }
    seqs::lemma_first_where_is(tasks.tcbs, is_incarnation(tid, asid), i);
}

/// Replacing one incarnation by itself leaves every other incarnation where it was.
pub proof fn lemma_exact_replaced(
    tasks: Tasks,
    tid: u64,
    asid: Option<Asid>,
    tcb: ThreadControlBlock,
)
    requires
        tasks.exact(tid, asid) is Some,
        tcb.tid.0 == tid,
        tcb.asid == asid,
    ensures
        tasks.exact(tid, asid)->0.tid.0 == tid,
        tasks.exact(tid, asid)->0.asid == asid,
        0 <= tasks.exact_slot(tid, asid) < tasks.tcbs.len(),
        tasks.with_exact(tid, asid, tcb).exact_slot(tid, asid) == tasks.exact_slot(tid, asid),
        tasks.with_exact(tid, asid, tcb).exact(tid, asid) == Some(tcb),
        forall|t: u64, a: Option<Asid>|
            (t != tid || a != asid) ==> tasks.with_exact(tid, asid, tcb).exact_slot(t, a)
                == tasks.exact_slot(t, a) && #[trigger] tasks.with_exact(tid, asid, tcb).exact(t, a)
                == tasks.exact(t, a),
{
    let i = tasks.exact_slot(tid, asid);
    let after = tasks.with_exact(tid, asid, tcb);
    seqs::lemma_first_where(tasks.tcbs, is_incarnation(tid, asid));
    assert forall|j: int| 0 <= j < i implies !is_incarnation(tid, asid)(#[trigger] after.tcbs[j]) by {
        assert(after.tcbs[j] == tasks.tcbs[j]);
    }
    seqs::lemma_first_where_is(after.tcbs, is_incarnation(tid, asid), i);
    assert forall|t: u64, a: Option<Asid>| (t != tid || a != asid) implies after.exact_slot(t, a)
        == tasks.exact_slot(t, a) && #[trigger] after.exact(t, a) == tasks.exact(t, a) by {
        let p = is_incarnation(t, a);
        seqs::lemma_first_where(tasks.tcbs, p);
        let k = tasks.exact_slot(t, a);
        assert forall|j: int| 0 <= j < k implies !p(#[trigger] after.tcbs[j]) by {
            if j != i {
                assert(after.tcbs[j] == tasks.tcbs[j]);
            }
        }
        if k < tasks.tcbs.len() {
            assert(is_incarnation(tid, asid)(tasks.tcbs[i]) && p(tasks.tcbs[k]));
            assert(after.tcbs[k] == tasks.tcbs[k]);
        }
        seqs::lemma_first_where_is(after.tcbs, p, k);
    }
}

impl Tasks {
    /// No number belongs to two tasks.
    pub open spec fn apart(self) -> bool {
        forall|i: int, j: int|
            0 <= i < j < self.tcbs.len() && (#[trigger] self.tcbs[i]) is Some && (
            #[trigger] self.tcbs[j]) is Some ==> self.tcbs[i]->0.tid != self.tcbs[j]->0.tid
    }
}

/// Changing a task without changing its number keeps numbers apart.
pub broadcast proof fn lemma_task_kept_apart(tasks: Tasks, tid: u64, tcb: ThreadControlBlock)
    requires
        tasks.apart(),
        tasks.find(tid) is Some,
        tcb.tid == tasks.find(tid)->0.tid,
    ensures
        #[trigger] tasks.with_task(tid, tcb).apart(),
{
    seqs::lemma_first_where(tasks.tcbs, has_tid(tid));
}

/// Changing an incarnation without changing its number keeps numbers apart.
pub broadcast proof fn lemma_incarnation_kept_apart(
    tasks: Tasks,
    tid: u64,
    asid: Option<Asid>,
    tcb: ThreadControlBlock,
)
    requires
        tasks.apart(),
        tasks.exact(tid, asid) is Some,
        tcb.tid == tasks.exact(tid, asid)->0.tid,
    ensures
        #[trigger] tasks.with_exact(tid, asid, tcb).apart(),
{
    seqs::lemma_first_where(tasks.tcbs, is_incarnation(tid, asid));
}

} // verus!
