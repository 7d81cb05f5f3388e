//! Blocking and waking: a sender that blocks, a blocked task that becomes runnable, and
//! the capability envelopes that go with a blocked send.
use vstd::prelude::*;

use crate::capability::CapObject;
use crate::deferred::BlockingSendCommitSnapshot;
use crate::ids::{map_scheduler_error, Asid, CapId, CpuId, KernelError, ThreadId, IDLE_TID};
use crate::ipc::{Ipc, ReceiverWaiterIdentity, SenderWaiter, SenderWakeTarget};
use crate::kernel::Kernel;
use crate::runtime::SharedKernel;
use crate::scheduler::{Sched, SchedulerTimer, TaskPriority};
use crate::seqs;
use crate::task::{
    BlockedSyscallClass, BlockedSyscallCompletion, TaskStatus, Tasks, ThreadControlBlock,
    WaitReason, SEND_COMPLETION_OK,
};

verus! {

/// What the commit of a blocking send came to.  A refusal has changed nothing.
#[derive(Clone, Copy, Debug, PartialEq, Eq, Structural)]
pub enum BlockingSendCommitOutcome {
    /// The sender is blocked and waits at the endpoint.
    Committed { send_generation: u64 },
    /// Another processor is current.
    RefusedCpuMismatch { requested: CpuId, authoritative: CpuId },
    /// The sender is not the current task.
    RefusedNotCurrent { expected: u64, observed: Option<u64> },
    /// The sender's incarnation is gone.
    RefusedSenderMissing,
    /// The sender is blocked already.
    RefusedAlreadyBlocked,
    /// The sender's block generation is at its maximum.
    RefusedGenerationExhausted,
    /// There is no such endpoint.
    RefusedEndpointMissing,
    /// The endpoint is another one by now.
    RefusedEndpointGenerationChanged,
    /// The sender waits at the endpoint already.
    RefusedDuplicateWaiter,
    /// All waiting places of the endpoint are taken.
    RefusedWaiterQueueFull,
}

impl BlockingSendCommitOutcome {
    pub open spec fn slug_text(self) -> Seq<char> {
        match self {
            BlockingSendCommitOutcome::Committed { .. } => "committed"@,
            BlockingSendCommitOutcome::RefusedCpuMismatch { .. } => "refused_cpu_mismatch"@,
            BlockingSendCommitOutcome::RefusedNotCurrent { .. } => "refused_not_current"@,
            BlockingSendCommitOutcome::RefusedSenderMissing => "refused_sender_missing"@,
            BlockingSendCommitOutcome::RefusedAlreadyBlocked => "refused_already_blocked"@,
            BlockingSendCommitOutcome::RefusedGenerationExhausted =>
                "refused_generation_exhausted"@,
            BlockingSendCommitOutcome::RefusedEndpointMissing => "refused_endpoint_missing"@,
            BlockingSendCommitOutcome::RefusedEndpointGenerationChanged =>
                "refused_endpoint_generation_changed"@,
            BlockingSendCommitOutcome::RefusedDuplicateWaiter => "refused_duplicate_waiter"@,
            BlockingSendCommitOutcome::RefusedWaiterQueueFull => "refused_waiter_queue_full"@,
        }
    }

    /// A short stable name.
    pub fn slug(&self) -> (r: &'static str)
        ensures
            r@ == self.slug_text(),
    {
        match self {
            BlockingSendCommitOutcome::Committed { .. } => "committed",
            BlockingSendCommitOutcome::RefusedCpuMismatch { .. } => "refused_cpu_mismatch",
            BlockingSendCommitOutcome::RefusedNotCurrent { .. } => "refused_not_current",
            BlockingSendCommitOutcome::RefusedSenderMissing => "refused_sender_missing",
            BlockingSendCommitOutcome::RefusedAlreadyBlocked => "refused_already_blocked",
            BlockingSendCommitOutcome::RefusedGenerationExhausted => "refused_generation_exhausted",
            BlockingSendCommitOutcome::RefusedEndpointMissing => "refused_endpoint_missing",
            BlockingSendCommitOutcome::RefusedEndpointGenerationChanged =>
                "refused_endpoint_generation_changed",
            BlockingSendCommitOutcome::RefusedDuplicateWaiter => "refused_duplicate_waiter",
            BlockingSendCommitOutcome::RefusedWaiterQueueFull => "refused_waiter_queue_full",
        }
    }

    pub open spec fn spec_immediate_error(self) -> Option<KernelError> {
        match self {
            BlockingSendCommitOutcome::Committed { .. } => None,
            BlockingSendCommitOutcome::RefusedEndpointMissing
            | BlockingSendCommitOutcome::RefusedEndpointGenerationChanged => Some(
                KernelError::WrongObject,
            ),
            BlockingSendCommitOutcome::RefusedWaiterQueueFull => Some(
                KernelError::EndpointQueueFull,
            ),
            BlockingSendCommitOutcome::RefusedSenderMissing => Some(KernelError::TaskMissing),
            _ => Some(KernelError::WouldBlock),
        }
    }

    /// The error that a refused sender gets at once.
    pub fn immediate_error(&self) -> (r: Option<KernelError>)
        ensures
            r == self.spec_immediate_error(),
    {
        match self {
            BlockingSendCommitOutcome::Committed { .. } => None,
            BlockingSendCommitOutcome::RefusedEndpointMissing
            | BlockingSendCommitOutcome::RefusedEndpointGenerationChanged => Some(
                KernelError::WrongObject,
            ),
            BlockingSendCommitOutcome::RefusedWaiterQueueFull => Some(
                KernelError::EndpointQueueFull,
            ),
            BlockingSendCommitOutcome::RefusedSenderMissing => Some(KernelError::TaskMissing),
            BlockingSendCommitOutcome::RefusedCpuMismatch { .. }
            | BlockingSendCommitOutcome::RefusedNotCurrent { .. }
            | BlockingSendCommitOutcome::RefusedAlreadyBlocked
            | BlockingSendCommitOutcome::RefusedGenerationExhausted
            | BlockingSendCommitOutcome::RefusedDuplicateWaiter => Some(KernelError::WouldBlock),
        }
    }
}

/// What taking an envelope yields.
#[derive(Clone, Copy, Debug, PartialEq, Eq, Structural)]
pub struct TakenTransferEnvelopeFacts {
    pub source_object: CapObject,
    pub source_tid: u64,
    pub source_cap: CapId,
    /// The memory whose pin is still to be released.
    pub pinned_object: Option<CapObject>,
}

/// The control block of a task that was woken.
pub open spec fn woken_tcb(tcb: ThreadControlBlock) -> ThreadControlBlock {
    ThreadControlBlock {
        status: TaskStatus::Runnable,
        ipc_timeout_deadline: None,
        ipc_timeout_fired: false,
        reply_timeout_token: None,
        ..tcb
    }
}

/// The control block of a sender that just blocked.
pub open spec fn send_blocked_tcb(
    tcb: ThreadControlBlock,
    send_cap: CapId,
    deadline: Option<u64>,
) -> ThreadControlBlock {
    ThreadControlBlock {
        status: TaskStatus::Blocked(WaitReason::EndpointSend(send_cap)),
        ipc_timeout_deadline: deadline,
        ipc_timeout_fired: false,
        blocked_send_generation: (tcb.blocked_send_generation + 1) as u64,
        ..tcb
    }
}

impl Tasks {
    /// The state after the return lanes of task `tid`, if there is one, were cleared.
    pub open spec fn returns_cleared(self, tid: u64) -> Tasks {
        match self.find(tid) {
            Some(tcb) => self.with_task(
                tid,
                ThreadControlBlock { user_context: tcb.user_context.spec_returns_cleared(), ..tcb },
            ),
            None => self,
        }
    }

    /// Does `target` still name a send that is blocked?
    pub open spec fn send_is_blocked(self, target: SenderWakeTarget) -> bool {
        &&& target.asid is Some
        &&& self.exact(target.tid.0, target.asid) matches Some(tcb)
        &&& tcb.blocked_send_generation == target.send_generation
        &&& tcb.status.spec_sending()
    }

    /// The state after `result` was parked for the blocked send that `target` names.
    pub open spec fn send_completed(self, target: SenderWakeTarget, result: u64) -> Tasks {
        if self.send_is_blocked(target) {
            self.with_exact(
                target.tid.0,
                target.asid,
                ThreadControlBlock {
                    pending_syscall_completion: Some(
                        BlockedSyscallCompletion {
                            syscall_class: BlockedSyscallClass::IpcSend,
                            result,
                            tid: target.tid.0,
                            asid: target.asid->0,
                            blocked_generation: target.send_generation,
                        },
                    ),
                    ..self.exact(target.tid.0, target.asid)->0
                },
            )
        } else {
            self
        }
    }
}

impl Sched {
    /// The state after `cpu` lost its current task, if it is online.
    pub open spec fn given_up(self, cpu: CpuId) -> Sched {
        if self.online(cpu) {
            self.cleared(cpu)
        } else {
            self
        }
    }
}

impl Ipc {
    /// The state after exactly this incarnation stopped waiting at `e`.
    pub open spec fn waiter_dropped(self, e: int, identity: ReceiverWaiterIdentity) -> Ipc {
        if self.waits_at(e, identity) {
            self.with_waiter(e, None)
        } else {
            self
        }
    }

    /// The state after `waiter` took the first free waiting place of endpoint `e`.
    pub open spec fn sender_queued(self, e: int, waiter: SenderWaiter) -> Ipc {
        Ipc {
            senders: self.senders.update(
                8 * e + seqs::first_where(self.row(e), crate::ipc::vacant()),
                Some(waiter),
            ),
            ..self
        }
    }
}

impl Kernel {
    /// The state in which `cpu` is current, if it is online.
    pub open spec fn bound(self, cpu: CpuId) -> Kernel {
        if self.sched.admits(cpu) is Ok {
            Kernel { sched: self.sched.bound(cpu), ..self }
        } else {
            self
        }
    }

    /// Is `tid` running on `cpu` at this moment?
    pub open spec fn runs_on(self, cpu: CpuId, tid: u64) -> bool {
        self.sched.current_on(cpu) == Some(tid) && self.tasks.find(tid) is Some
            && self.tasks.find(tid)->0.status is Running
    }

    /// The processor that a woken task is queued on: its own, or else the current one.
    pub open spec fn wake_target(self, tcb: ThreadControlBlock) -> CpuId {
        match tcb.cpu_affinity {
            Some(pinned) => pinned,
            None => self.sched.current_cpu,
        }
    }

    /// What waking `tid` from `cpu` comes to.
    pub open spec fn wake_result(self, cpu: CpuId, tid: u64) -> Result<(), KernelError> {
        match self.tasks.find(tid) {
            None => Err(KernelError::TaskMissing),
            Some(tcb) => if !tcb.status.spec_live() {
                Err(KernelError::WouldBlock)
            } else if tid != IDLE_TID && tcb.class is None {
                Err(KernelError::TaskMissing)
            } else if self.runs_on(cpu, tid) {
                Ok(())
            } else if tcb.spawn_reservation {
                Err(KernelError::WrongObject)
            } else {
                match self.sched.enqueue_verdict(self.wake_target(tcb), tid) {
                    Err(e) => Err(KernelError::Scheduler(e)),
                    Ok(_) => Ok(()),
                }
            },
        }
    }

    /// The state after waking `tid` from `cpu`: a live task is runnable, has no deadline any
    /// more, and is queued unless it was running on `cpu`.
    pub open spec fn after_wake(self, cpu: CpuId, tid: u64) -> Kernel {
        match self.tasks.find(tid) {
            None => self,
            Some(tcb) => if !tcb.status.spec_live() {
                self
            } else {
                let runnable = Kernel { tasks: self.tasks.with_task(tid, woken_tcb(tcb)), ..self };
                let retired = Kernel {
                    ipc: match tcb.reply_timeout_token {
                        Some(handle) => self.ipc.disarmed(handle),
                        None => self.ipc,
                    },
                    ..runnable
                };
                if tid != IDLE_TID && tcb.class is None {
                    runnable
                } else if self.runs_on(cpu, tid) || tcb.spawn_reservation {
                    retired
                } else {
                    Kernel {
                        sched: self.sched.enqueued(
                            self.wake_target(tcb),
                            tid,
                            if tid == IDLE_TID {
                                TaskPriority::Normal
                            } else {
                                tcb.class->0.spec_priority()
                            },
                        ),
                        ..retired
                    }
                }
            },
        }
    }

    /// The identity under which a delivery finds the receiver to wake.
    pub open spec fn wake_identity(self, tid: ThreadId) -> ReceiverWaiterIdentity {
        ReceiverWaiterIdentity {
            tid,
            asid: match self.tasks.asid_of(tid.0) {
                Some(asid) => asid,
                None => Asid(0),
            },
        }
    }

    /// The state just before a delivery wakes its receiver: the return lanes of the waiter are
    /// cleared and the receiver no longer waits at the endpoint.
    pub open spec fn settled(self, cpu: CpuId, waiter: u64, e: int, wake: Option<ThreadId>) -> Kernel {
        let cleared = Kernel { tasks: self.tasks.returns_cleared(waiter), ..self.bound(cpu) };
        match wake {
            None => cleared,
            Some(w) => Kernel {
                ipc: self.ipc.waiter_dropped(e, cleared.wake_identity(w)),
                ..cleared
            },
        }
    }

    /// What completing a delivery comes to.
    pub open spec fn completion_result(
        self,
        cpu: CpuId,
        waiter: u64,
        e: int,
        wake: Option<ThreadId>,
    ) -> Result<(), KernelError> {
        match self.sched.admits(cpu) {
            Err(e) => Err(KernelError::Scheduler(e)),
            Ok(_) => match wake {
                None => Ok(()),
                Some(w) => self.settled(cpu, waiter, e, wake).wake_result(cpu, w.0),
            },
        }
    }

    /// The state after completing a delivery.
    pub open spec fn after_completion(
        self,
        cpu: CpuId,
        waiter: u64,
        e: int,
        wake: Option<ThreadId>,
    ) -> Kernel {
        match self.sched.admits(cpu) {
            Err(_) => self,
            Ok(_) => match wake {
                None => self.settled(cpu, waiter, e, wake),
                Some(w) => self.settled(cpu, waiter, e, wake).after_wake(cpu, w.0),
            },
        }
    }

    /// The state in which a blocked sender has its result and is about to be woken.
    pub open spec fn send_answered(self, cpu: CpuId, target: SenderWakeTarget) -> Kernel {
        Kernel {
            tasks: self.tasks.send_completed(target, SEND_COMPLETION_OK),
            ..self.bound(cpu)
        }
    }

    /// What waking a blocked sender comes to.
    pub open spec fn sender_wake_result(self, cpu: CpuId, target: SenderWakeTarget) -> Result<
        (),
        KernelError,
    > {
        match self.sched.admits(cpu) {
            Err(e) => Err(KernelError::Scheduler(e)),
            Ok(_) => self.send_answered(cpu, target).wake_result(cpu, target.tid.0),
        }
    }

    /// The state after waking a blocked sender.
    pub open spec fn after_sender_wake(self, cpu: CpuId, target: SenderWakeTarget) -> Kernel {
        match self.sched.admits(cpu) {
            Err(_) => self,
            Ok(_) => self.send_answered(cpu, target).after_wake(cpu, target.tid.0),
        }
    }

    /// The state after the pin on the memory behind `object` was released.
    pub open spec fn unpinned(self, object: CapObject) -> Kernel {
        match object.spec_memory_id() {
            Some(id) => Kernel { mem: self.mem.pin_noted(id, false), ..self },
            None => self,
        }
    }

    /// The state after the envelope of a blocked send was settled.
    pub open spec fn envelope_settled(self, handle: u64, e: int, receiver: ThreadId) -> Kernel {
        let taken = Kernel { ipc: self.ipc.envelope_taken(handle, e, receiver), ..self };
        match self.ipc.takeable(handle, e, receiver) {
            Some(env) if env.shared_region is Some => taken.unpinned(env.source_object),
            _ => taken,
        }
    }

    /// What committing a blocking send comes to.
    pub open spec fn send_commit_result(self, snap: BlockingSendCommitSnapshot) -> BlockingSendCommitOutcome {
        let e = snap.endpoint_idx as int;
        if self.sched.current_cpu != snap.cpu {
            BlockingSendCommitOutcome::RefusedCpuMismatch {
                requested: snap.cpu,
                authoritative: self.sched.current_cpu,
            }
        } else if self.sched.current_on(snap.cpu) != Some(snap.sender_tid) {
            BlockingSendCommitOutcome::RefusedNotCurrent {
                expected: snap.sender_tid,
                observed: self.sched.current_on(snap.cpu),
            }
        } else {
            match self.tasks.exact(snap.sender_tid, Some(snap.sender_asid)) {
                None => BlockingSendCommitOutcome::RefusedSenderMissing,
                Some(tcb) => if tcb.status is Blocked {
                    BlockingSendCommitOutcome::RefusedAlreadyBlocked
                } else if tcb.blocked_send_generation == u64::MAX {
                    BlockingSendCommitOutcome::RefusedGenerationExhausted
                } else if !self.ipc.exists_at(e) {
                    BlockingSendCommitOutcome::RefusedEndpointMissing
                } else if self.ipc.endpoints[e].generation != snap.endpoint_generation {
                    BlockingSendCommitOutcome::RefusedEndpointGenerationChanged
                } else if seqs::any_where(self.ipc.row(e), crate::ipc::sent_by(snap.sender_tid)) {
                    BlockingSendCommitOutcome::RefusedDuplicateWaiter
                } else if !seqs::any_where(self.ipc.row(e), crate::ipc::vacant()) {
                    BlockingSendCommitOutcome::RefusedWaiterQueueFull
                } else {
                    BlockingSendCommitOutcome::Committed {
                        send_generation: (tcb.blocked_send_generation + 1) as u64,
                    }
                },
            }
        }
    }

    /// The state after committing a blocking send.
    pub open spec fn after_send_commit(self, snap: BlockingSendCommitSnapshot) -> Kernel {
        match self.send_commit_result(snap) {
            BlockingSendCommitOutcome::Committed { send_generation } => {
                let asid = Some(snap.sender_asid);
                let gone = self.sched.given_up(snap.cpu);
                Kernel {
                    ipc: self.ipc.sender_queued(
                        snap.endpoint_idx as int,
                        SenderWaiter {
                            tid: ThreadId(snap.sender_tid),
                            asid,
                            send_generation,
                            msg: snap.msg,
                        },
                    ),
                    tasks: self.tasks.with_exact(
                        snap.sender_tid,
                        asid,
                        send_blocked_tcb(
                            self.tasks.exact(snap.sender_tid, asid)->0,
                            snap.send_cap,
                            snap.deadline,
                        ),
                    ),
                    sched: Sched {
                        timer: SchedulerTimer { quantum_used: 0, ..gone.timer },
                        ..gone
                    },
                    ..self
                }
            },
            _ => self,
        }
    }
}

impl SharedKernel {
    /// Makes `cpu` the current processor; refused when it is not online.
    pub fn bind_current_cpu_split(&mut self, cpu: CpuId) -> (r: Result<(), KernelError>)
        ensures
            r == match old(self)@.sched.admits(cpu) {
                Err(e) => Err::<(), KernelError>(KernelError::Scheduler(e)),
                Ok(_) => Ok(()),
            },
            final(self)@ == old(self)@.bound(cpu),
    {
        match self.state.sched.validate_online_cpu(cpu) {
            Err(e) => Err(map_scheduler_error(e)),
            Ok(_) => {
                self.state.sched.current_cpu = cpu;
                Ok(())
            },
        }
    }

    /// Completes a delivery to a blocked receiver: clears its return lanes and, when a
    /// receiver is to be woken, takes it off the endpoint and wakes it once.
    pub fn complete_blocked_waiter_delivery_split(
        &mut self,
        cpu: CpuId,
        waiter_tid: u64,
        endpoint_idx: usize,
        wake_tid: Option<ThreadId>,
    ) -> (r: Result<(), KernelError>)
        ensures
            r == old(self)@.completion_result(cpu, waiter_tid, endpoint_idx as int, wake_tid),
            final(self)@ == old(self)@.after_completion(
                cpu,
                waiter_tid,
                endpoint_idx as int,
                wake_tid,
            ),
    {
        if let Err(e) = self.bind_current_cpu_split(cpu) {
            return Err(e);
        }
        self.state.tasks.clear_blocked_recv_return_regs(waiter_tid);
        match wake_tid {
            None => Ok(()),
            Some(wake) => {
                let asid = match self.state.tasks.asid_of(wake.0) {
                    Some(asid) => asid,
                    None => Asid(0),
                };
                let identity = ReceiverWaiterIdentity { tid: wake, asid };
                let _ = self.state.ipc.clear_endpoint_waiter_if_identity(endpoint_idx, identity);
                self.wake_tid_to_runnable_split(cpu, wake)
            },
        }
    }

    /// Wakes a blocked sender whose message was taken, with success as its result.
    pub fn apply_split_sender_wake_plan_split(&mut self, cpu: CpuId, target: SenderWakeTarget) -> (r:
        Result<(), KernelError>)
        ensures
            r == old(self)@.sender_wake_result(cpu, target),
            final(self)@ == old(self)@.after_sender_wake(cpu, target),
    {
        if let Err(e) = self.bind_current_cpu_split(cpu) {
            return Err(e);
        }
        let _ = self.publish_blocking_send_completion_split(target, SEND_COMPLETION_OK);
        self.wake_tid_to_runnable_split(cpu, target.tid)
    }

    /// Releases the pin on the memory behind `object`.
    pub fn sr_release_pin_split(&mut self, object: CapObject)
        ensures
            final(self)@ == old(self)@.unpinned(object),
    {
        if let Some(id) = object.memory_id() {
            self.state.mem.note_pin(id, false);
        }
    }

    /// Settles the envelope of a send that will not be delivered; says whether there was one.
    pub fn settle_blocked_send_envelope_split(
        &mut self,
        handle: u64,
        endpoint_idx: usize,
        receiver_tid: ThreadId,
    ) -> (r: bool)
        ensures
            r == (old(self)@.ipc.takeable(handle, endpoint_idx as int, receiver_tid) is Some),
            final(self)@ == old(self)@.envelope_settled(handle, endpoint_idx as int, receiver_tid),
    {
        let (taken, pinned_object) = self.take_transfer_envelope_split_inner(
            handle,
            endpoint_idx,
            receiver_tid,
        );
        if !taken {
            return false;
        }
        if let Some(object) = pinned_object {
            self.sr_release_pin_split(object);
        }
        true
    }

    /// Takes an envelope; says whether there was one and which memory it leaves pinned.
    fn take_transfer_envelope_split_inner(
        &mut self,
        handle: u64,
        endpoint_idx: usize,
        receiver_tid: ThreadId,
    ) -> (r: (bool, Option<CapObject>))
        ensures
            r == match old(self)@.ipc.takeable(handle, endpoint_idx as int, receiver_tid) {
                Some(env) => (true, if env.shared_region is Some {
                    Some(env.source_object)
                } else {
                    None
                }),
                None => (false, None),
            },
            final(self)@ == (Kernel {
                ipc: old(self)@.ipc.envelope_taken(handle, endpoint_idx as int, receiver_tid),
                ..old(self)@
            }),
    {
        match self.take_transfer_envelope_facts_split(handle, endpoint_idx, receiver_tid) {
            Some(facts) => (true, facts.pinned_object),
            None => (false, None),
        }
    }

    /// Takes an envelope and reports what it held.
    pub fn take_transfer_envelope_facts_split(
        &mut self,
        handle: u64,
        endpoint_idx: usize,
        receiver_tid: ThreadId,
    ) -> (r: Option<TakenTransferEnvelopeFacts>)
        ensures
            r == match old(self)@.ipc.takeable(handle, endpoint_idx as int, receiver_tid) {
                Some(env) => Some(
                    TakenTransferEnvelopeFacts {
                        source_object: env.source_object,
                        source_tid: env.source_tid.0,
                        source_cap: env.source_cap,
                        pinned_object: if env.shared_region is Some {
                            Some(env.source_object)
                        } else {
                            None
                        },
                    },
                ),
                None => None,
            },
            final(self)@ == (Kernel {
                ipc: old(self)@.ipc.envelope_taken(handle, endpoint_idx as int, receiver_tid),
                ..old(self)@
            }),
    {
        match self.state.ipc.take_envelope(handle, endpoint_idx, receiver_tid) {
            None => None,
            Some(env) => {
                let pinned_object = if env.shared_region.is_some() {
                    Some(env.source_object)
                } else {
                    None
                };
                Some(
                    TakenTransferEnvelopeFacts {
                        source_object: env.source_object,
                        source_tid: env.source_tid.0,
                        source_cap: env.source_cap,
                        pinned_object,
                    },
                )
            },
        }
    }

    /// Blocks the sender of `snap` at its endpoint, or refuses and changes nothing.
    pub fn commit_blocking_send_split(&mut self, snap: &BlockingSendCommitSnapshot) -> (r:
        BlockingSendCommitOutcome)
        ensures
            r == old(self)@.send_commit_result(*snap),
            final(self)@ == old(self)@.after_send_commit(*snap),
    {
        let authoritative = self.state.sched.current_cpu;
        if authoritative != snap.cpu {
            return BlockingSendCommitOutcome::RefusedCpuMismatch {
                requested: snap.cpu,
                authoritative,
            };
        }
        let observed = self.state.sched.current_tid_on(snap.cpu);
        if observed != Some(snap.sender_tid) {
            return BlockingSendCommitOutcome::RefusedNotCurrent {
                expected: snap.sender_tid,
                observed,
            };
        }
        let (slot, tcb) = match self.state.tasks.lookup_exact(
            snap.sender_tid,
            Some(snap.sender_asid),
        ) {
            None => {
                return BlockingSendCommitOutcome::RefusedSenderMissing;
            },
            Some(found) => found,
        };
        if matches!(tcb.status, TaskStatus::Blocked(_)) {
            return BlockingSendCommitOutcome::RefusedAlreadyBlocked;
        }
        if tcb.blocked_send_generation == u64::MAX {
            return BlockingSendCommitOutcome::RefusedGenerationExhausted;
        }
        let send_generation: u64 = tcb.blocked_send_generation + 1;
        let e: usize = snap.endpoint_idx;
        if e >= self.state.ipc.endpoints.len() {
            return BlockingSendCommitOutcome::RefusedEndpointMissing;
        }
        let endpoint = self.state.ipc.endpoints[e];
        if endpoint.mode.is_none() {
            return BlockingSendCommitOutcome::RefusedEndpointMissing;
        }
        if endpoint.generation != snap.endpoint_generation {
            return BlockingSendCommitOutcome::RefusedEndpointGenerationChanged;
        }
        if self.state.ipc.sender_waits(e, snap.sender_tid) {
            return BlockingSendCommitOutcome::RefusedDuplicateWaiter;
        }
        let place = match self.state.ipc.free_sender_slot(e) {
            None => {
                return BlockingSendCommitOutcome::RefusedWaiterQueueFull;
            },
            Some(place) => place,
        };
        self.state.ipc.senders[place] = Some(
            SenderWaiter {
                tid: ThreadId(snap.sender_tid),
                asid: Some(snap.sender_asid),
                send_generation,
                msg: snap.msg,
            },
        );
        self.state.tasks.put(
            slot,
            ThreadControlBlock {
                status: TaskStatus::Blocked(WaitReason::EndpointSend(snap.send_cap)),
                ipc_timeout_deadline: snap.deadline,
                ipc_timeout_fired: false,
                blocked_send_generation: send_generation,
                ..tcb
            },
        );
        let _ = self.state.sched.block_current_on(snap.cpu);
        self.state.sched.timer.quantum_used = 0;
        BlockingSendCommitOutcome::Committed { send_generation }
    }

    /// Parks the result of a blocked send, if `target` still names it.
    pub fn publish_blocking_send_completion_split(&mut self, target: SenderWakeTarget, result: u64) -> (r:
        bool)
        ensures
            r == old(self)@.tasks.send_is_blocked(target),
            final(self)@ == (Kernel {
                tasks: old(self)@.tasks.send_completed(target, result),
                ..old(self)@
            }),
    {
        let asid = match target.asid {
            None => {
                return false;
            },
            Some(asid) => asid,
        };
        match self.state.tasks.lookup_exact(target.tid.0, Some(asid)) {
            None => false,
            Some((i, tcb)) => {
                if tcb.blocked_send_generation != target.send_generation {
                    return false;
                }
                if !tcb.status.sending() {
                    return false;
                }
                let completion = BlockedSyscallCompletion {
                    syscall_class: BlockedSyscallClass::IpcSend,
                    result,
                    tid: target.tid.0,
                    asid,
                    blocked_generation: target.send_generation,
                };
                self.state.tasks.put(
                    i,
                    ThreadControlBlock { pending_syscall_completion: Some(completion), ..tcb },
                );
                true
            },
        }
    }

    /// Makes a live task runnable and queues it, unless it runs on `cpu` already.
    ///
    /// As in a hosted build, the first user task goes to its home, wherever that is.  A
    /// freestanding build halts where `wake_breaks_pin_split_read` answers yes, which it never
    /// does while that home is the bootstrap processor.
    pub fn wake_tid_to_runnable_split(&mut self, cpu: CpuId, tid: ThreadId) -> (r: Result<
        (),
        KernelError,
    >)
        ensures
            r == old(self)@.wake_result(cpu, tid.0),
            final(self)@ == old(self)@.after_wake(cpu, tid.0),
    {
        let (i, tcb) = match self.state.tasks.lookup(tid.0) {
            None => {
                return Err(KernelError::TaskMissing);
            },
            Some(found) => found,
        };
        if !tcb.status.live() {
            return Err(KernelError::WouldBlock);
        }
        self.state.tasks.put(
            i,
            ThreadControlBlock {
                status: TaskStatus::Runnable,
                ipc_timeout_deadline: None,
                ipc_timeout_fired: false,
                reply_timeout_token: None,
                ..tcb
            },
        );
        let priority = if tid.0 == IDLE_TID {
            TaskPriority::Normal
        } else {
            match tcb.class {
                Some(class) => class.priority(),
                None => {
                    return Err(KernelError::TaskMissing);
                },
            }
        };
        if let Some(handle) = tcb.reply_timeout_token {
            let _ = self.state.ipc.disarm(handle);
        }
        if self.state.sched.current_tid_on(cpu) == Some(tid.0) && matches!(
            tcb.status,
            TaskStatus::Running
        ) {
            return Ok(());
        }
        let target = match tcb.cpu_affinity {
            Some(pinned) => pinned,
            None => self.state.sched.current_cpu,
        };
        if tcb.spawn_reservation {
            return Err(KernelError::WrongObject);
        }
        match self.state.sched.enqueue_on_with_priority(target, tid.0, priority) {
            Err(e) => Err(map_scheduler_error(e)),
            Ok(_) => Ok(()),
        }
    }
}

} // verus!
