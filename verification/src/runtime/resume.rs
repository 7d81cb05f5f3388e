//! Resuming tasks: what a return to user mode takes from the task it resumes, and how a
//! dispatch that failed half-way is taken back.
use vstd::prelude::*;

use crate::ids::{map_scheduler_error, Asid, CpuId, KernelError, IDLE_TID};
use crate::kernel::Kernel;
use crate::runtime::dispatch::{
    DequeuedDispatchMarkToken, DispatchMarkToken, OwnerRevalidationSnapshot,
};
use crate::runtime::SharedKernel;
use crate::task::{
    take_completion, AsyncResumeClass, BlockedSyscallClass, BlockedSyscallCompletion, TaskStatus,
    TaskTransition, Tasks, ThreadControlBlock, ThreadRestoreFacts, UserRegisterContext,
};

verus! {

/// The incarnation that entered the kernel.
#[derive(Clone, Copy, Debug, PartialEq, Eq, Structural)]
pub struct SplitReturnIdentity {
    pub tid: u64,
    pub asid: Asid,
}

/// A dispatch that a processor owes because `outgoing_tid` gave it up.
#[derive(Clone, Copy, Debug, PartialEq, Eq, Structural)]
pub struct DirectDispatchWork {
    pub outgoing_tid: u64,
    pub outgoing_asid: u16,
}

/// What became of a task that gave its processor up.
#[derive(Clone, Copy, Debug, PartialEq, Eq, Structural)]
pub enum OutgoingObservation {
    Gone,
    StillBlocked,
    MadeRunnable,
    OtherState,
}

/// One look at an exiting incarnation.
#[derive(Clone, Copy, Debug, PartialEq, Eq, Structural)]
pub struct PostLockExitValidation {
    /// The task that is current on the processor.
    pub current: Option<u64>,
    /// The number does not belong to another incarnation.
    pub identity_ok: bool,
    /// The task is gone, exited or dead.
    pub terminal: bool,
    /// The task is queued or current on some processor.
    pub in_runqueue: bool,
}

/// What restoring the replacement of an exited task needs.
#[derive(Clone, Copy, Debug, PartialEq, Eq)]
pub struct ExitReplacementRestore {
    /// The address space to activate, if any.
    pub asid: Option<Asid>,
    /// What was taken from the replacement, if anything.
    pub facts: Option<ThreadRestoreFacts>,
    /// There is a frame, but nothing to restore into it.
    pub enter_idle: bool,
}

/// What a restore behind a switch found.
#[derive(Debug, PartialEq, Eq)]
pub enum PostSwitchRestoreOutcome<T> {
    /// The idle task, or a task without an address space; nothing was taken.
    Idle,
    /// The task has no context to restore; nothing was taken.
    Missing,
    /// Everything to restore; this is the only copy.
    Facts(T),
}

/// The saved state from which a secondary processor resumes a task.
#[derive(Clone, Copy, Debug, PartialEq, Eq)]
pub struct ApSavedResumeContext {
    pub asid: u16,
    /// Page-table root of `asid`.
    pub cr3: u64,
    pub rip: u64,
    pub rsp: u64,
    pub gprs: [u64; 15],
    /// Thread-local-storage base; zero for a task without one.
    pub fs_base: u64,
    /// The task may run and its saved state is complete.
    pub runnable_saved: bool,
}

/// What became of the incarnation that gave its processor up.
pub open spec fn outgoing_observation(tasks: Tasks, work: DirectDispatchWork) -> OutgoingObservation {
    if work.outgoing_tid == IDLE_TID {
        OutgoingObservation::Gone
    } else {
        match tasks.exact(work.outgoing_tid, Some(Asid(work.outgoing_asid))) {
            None => OutgoingObservation::Gone,
            Some(tcb) => if tcb.status.spec_receiving() {
                OutgoingObservation::StillBlocked
            } else if tcb.status is Runnable || tcb.status is Running {
                OutgoingObservation::MadeRunnable
            } else {
                OutgoingObservation::OtherState
            },
        }
    }
}

/// The incarnation that a mark names, if it is still there.
pub open spec fn marked_task(tasks: Tasks, token: DispatchMarkToken) -> Option<ThreadControlBlock> {
    match token.spec_expect_asid() {
        None => None,
        Some(asid) => tasks.exact(token.spec_tid(), Some(asid)),
    }
}

/// Can the dispatch that `token` marked be taken back?
pub open spec fn can_roll_back(k: Kernel, token: DispatchMarkToken) -> bool {
    &&& k.tasks.transition_verdict(
        token.spec_tid(),
        token.spec_expect_asid(),
        TaskTransition::RollbackDispatchedIncoming,
    ) is Ok
    &&& k.sched.online(token.spec_cpu())
    &&& k.sched.current_on(token.spec_cpu()) == Some(token.spec_tid())
    &&& k.sched.can_reenqueue(token.spec_cpu())
}

/// How a resume of `tid` in address space `asid` may use the snapshot staged on `tcb`.
pub open spec fn async_class(tcb: ThreadControlBlock, tid: u64, asid: Option<Asid>) -> AsyncResumeClass {
    match tcb.async_preempt {
        None => AsyncResumeClass::NotStaged,
        Some(tag) => if tag.tid == tid && tag.asid == asid {
            AsyncResumeClass::Verbatim
        } else {
            AsyncResumeClass::Stale
        },
    }
}

/// The task domain after the snapshot staged on `tid`, if any, was taken.
pub open spec fn async_taken(tasks: Tasks, tid: u64) -> Tasks {
    match tasks.find(tid) {
        Some(tcb) => tasks.with_task(tid, ThreadControlBlock { async_preempt: None, ..tcb }),
        None => tasks,
    }
}

impl SharedKernel {
    /// Takes the pending storage restore of exactly the incarnation that entered; nothing
    /// when that incarnation is gone, or for the idle task.
    pub fn split_return_take_tls_split(&mut self, id: SplitReturnIdentity) -> (r: Option<
        Option<u64>,
    >)
        ensures
            match old(self)@.tasks.exact(id.tid, Some(id.asid)) {
                Some(tcb) if id.tid != IDLE_TID => r == Some(old(self)@.tasks.tls_request(tcb))
                    && final(self)@ == (Kernel {
                    tasks: old(self)@.tasks.tls_taken(id.tid),
                    ..old(self)@
                }),
                _ => r is None && final(self)@ == old(self)@,
            },
    {
        if id.tid == IDLE_TID {
            return None;
        }
        match self.state.tasks.lookup_exact(id.tid, Some(id.asid)) {
            None => None,
            Some((_, tcb)) => Some(self.state.tasks.take_tls_request(tcb)),
        }
    }

    /// Saves the user registers of exactly the incarnation that entered.
    pub fn split_return_commit_context_split(
        &mut self,
        id: SplitReturnIdentity,
        context: UserRegisterContext,
    ) -> (r: bool)
        ensures
            r == (id.tid != IDLE_TID && old(self)@.tasks.exact(id.tid, Some(id.asid)) is Some),
            final(self)@ == if r {
                Kernel {
                    tasks: old(self)@.tasks.with_exact(
                        id.tid,
                        Some(id.asid),
                        ThreadControlBlock {
                            user_context: context,
                            ..old(self)@.tasks.exact(id.tid, Some(id.asid))->0
                        },
                    ),
                    ..old(self)@
                }
            } else {
                old(self)@
            },
    {
        if id.tid == IDLE_TID {
            return false;
        }
        match self.state.tasks.lookup_exact(id.tid, Some(id.asid)) {
            None => false,
            Some((i, tcb)) => {
                self.state.tasks.put(i, ThreadControlBlock { user_context: context, ..tcb });
                true
            },
        }
    }

    /// Observes, and does not judge, the task that gave its processor up.
    pub fn direct_dispatch_observe_outgoing_split(&self, work: DirectDispatchWork) -> (r:
        OutgoingObservation)
        ensures
            r == outgoing_observation(self@.tasks, work),
    {
        if work.outgoing_tid == IDLE_TID {
            return OutgoingObservation::Gone;
        }
        match self.state.tasks.lookup_exact(work.outgoing_tid, Some(Asid(work.outgoing_asid))) {
            None => OutgoingObservation::Gone,
            Some((_, tcb)) => {
                if tcb.status.receiving() {
                    OutgoingObservation::StillBlocked
                } else if matches!(tcb.status, TaskStatus::Runnable | TaskStatus::Running) {
                    OutgoingObservation::MadeRunnable
                } else {
                    OutgoingObservation::OtherState
                }
            },
        }
    }

    /// Takes back a dispatch that was marked: the task is runnable and queued again, and its
    /// processor is free.  Where that cannot be done in full, nothing is changed.
    pub fn direct_dispatch_rollback_split(&mut self, authority: DequeuedDispatchMarkToken) -> (r:
        bool)
        ensures
            r == can_roll_back(old(self)@, authority.spec_token()),
            final(self)@ == if r {
                Kernel {
                    tasks: old(self)@.tasks.transitioned(
                        authority.spec_token().spec_tid(),
                        TaskTransition::RollbackDispatchedIncoming,
                    ),
                    sched: old(self)@.sched.reenqueued(authority.spec_token().spec_cpu()),
                    ..old(self)@
                }
            } else {
                old(self)@
            },
    {
        let token = authority.token();
        let cpu = token.cpu();
        let incoming = token.tid();
        let expect = token.expect_asid();
        let rolled = self.state.tasks.apply_task_transition(
            incoming,
            expect,
            TaskTransition::RollbackDispatchedIncoming,
        );
        if rolled.is_err() {
            return false;
        }
        proof {
            let tcb = old(self)@.tasks.find(incoming)->0;
            crate::task::lemma_found_is_exact(old(self)@.tasks, incoming);
            crate::task::lemma_replaced(
                old(self)@.tasks,
                incoming,
                ThreadControlBlock { status: TaskStatus::Runnable, ..tcb },
            );
            crate::seqs::lemma_first_where(
                old(self)@.tasks.tcbs,
                crate::task::has_tid(incoming),
            );
            assert(self@.tasks.transitioned(incoming, TaskTransition::DispatchIncoming).tcbs
                =~= old(self)@.tasks.tcbs);
        }
        if self.current_tid_authoritative(cpu) != Some(incoming) {
            let _ = self.state.tasks.apply_task_transition(
                incoming,
                expect,
                TaskTransition::DispatchIncoming,
            );
            return false;
        }
        let restored = self.state.sched.preempt_reenqueue_only_on(cpu);
        if restored != Some(incoming) {
            let _ = self.state.tasks.apply_task_transition(
                incoming,
                expect,
                TaskTransition::DispatchIncoming,
            );
            return false;
        }
        true
    }

    /// The address space to activate for a marked task; none when the number belongs to
    /// another incarnation by now, or for the idle task.
    pub fn direct_dispatch_activate_asid_split(&self, token: DispatchMarkToken) -> (r: Option<u16>)
        ensures
            r == match token.spec_expect_asid() {
                Some(asid) if self@.tasks.asid_of(token.spec_tid()) == Some(asid) => Some(asid.0),
                _ => None,
            },
    {
        match token.expect_asid() {
            None => None,
            Some(expected) => {
                if self.state.tasks.asid_of(token.tid()) == Some(expected) {
                    Some(expected.0)
                } else {
                    None
                }
            },
        }
    }

    /// Reads the saved registers of a marked incarnation and takes its pending storage
    /// restore.
    pub fn direct_dispatch_restore_context_split(&mut self, token: DispatchMarkToken) -> (r: Option<
        (UserRegisterContext, Option<u64>),
    >)
        ensures
            match marked_task(old(self)@.tasks, token) {
                Some(tcb) => r == Some((tcb.user_context, old(self)@.tasks.tls_request(tcb)))
                    && final(self)@ == (Kernel {
                    tasks: old(self)@.tasks.tls_taken(token.spec_tid()),
                    ..old(self)@
                }),
                None => r is None && final(self)@ == old(self)@,
            },
    {
        match token.expect_asid() {
            None => None,
            Some(expected) => match self.state.tasks.lookup_exact(token.tid(), Some(expected)) {
                None => None,
                Some((_, tcb)) => {
                    let tls = self.state.tasks.take_tls_request(tcb);
                    Some((tcb.user_context, tls))
                },
            },
        }
    }

    /// Takes the completion of `class` parked on a marked incarnation.
    fn take_marked_completion(&mut self, token: DispatchMarkToken, class: BlockedSyscallClass) -> (r:
        Option<BlockedSyscallCompletion>)
        ensures
            match marked_task(old(self)@.tasks, token) {
                Some(tcb) => r == crate::task::completion_out(tcb, class) && final(self)@ == (
                Kernel {
                    tasks: old(self)@.tasks.with_exact(
                        token.spec_tid(),
                        token.spec_expect_asid(),
                        crate::task::completion_taken(tcb, class),
                    ),
                    ..old(self)@
                }),
                None => r is None && final(self)@ == old(self)@,
            },
    {
        match token.expect_asid() {
            None => None,
            Some(expected) => match self.state.tasks.lookup_exact(token.tid(), Some(expected)) {
                None => None,
                Some((i, tcb)) => {
                    let (left, taken) = take_completion(tcb, class);
                    self.state.tasks.put(i, left);
                    taken
                },
            },
        }
    }

    /// Takes the receive completion parked on a marked incarnation.
    pub fn direct_dispatch_take_completion_split(&mut self, token: DispatchMarkToken) -> (r: Option<
        BlockedSyscallCompletion,
    >)
        ensures
            match marked_task(old(self)@.tasks, token) {
                Some(tcb) => r == crate::task::completion_out(tcb, BlockedSyscallClass::IpcRecv)
                    && final(self)@ == (Kernel {
                    tasks: old(self)@.tasks.with_exact(
                        token.spec_tid(),
                        token.spec_expect_asid(),
                        crate::task::completion_taken(tcb, BlockedSyscallClass::IpcRecv),
                    ),
                    ..old(self)@
                }),
                None => r is None && final(self)@ == old(self)@,
            },
    {
        self.take_marked_completion(token, BlockedSyscallClass::IpcRecv)
    }

    /// Takes the send completion parked on a marked incarnation.
    pub fn direct_dispatch_take_send_completion_split(&mut self, token: DispatchMarkToken) -> (r:
        Option<BlockedSyscallCompletion>)
        ensures
            match marked_task(old(self)@.tasks, token) {
                Some(tcb) => r == crate::task::completion_out(tcb, BlockedSyscallClass::IpcSend)
                    && final(self)@ == (Kernel {
                    tasks: old(self)@.tasks.with_exact(
                        token.spec_tid(),
                        token.spec_expect_asid(),
                        crate::task::completion_taken(tcb, BlockedSyscallClass::IpcSend),
                    ),
                    ..old(self)@
                }),
                None => r is None && final(self)@ == old(self)@,
            },
    {
        self.take_marked_completion(token, BlockedSyscallClass::IpcSend)
    }

    /// Takes the snapshot staged on the incoming task and says how it may be used.
    pub fn take_async_preempt_for_incoming_split(
        &mut self,
        incoming_tid: u64,
        incoming_asid: Option<Asid>,
    ) -> (r: AsyncResumeClass)
        ensures
            r == match old(self)@.tasks.find(incoming_tid) {
                Some(tcb) => async_class(tcb, incoming_tid, incoming_asid),
                None => AsyncResumeClass::NotStaged,
            },
            final(self)@ == (Kernel {
                tasks: async_taken(old(self)@.tasks, incoming_tid),
                ..old(self)@
            }),
    {
        match self.state.tasks.lookup(incoming_tid) {
            None => AsyncResumeClass::NotStaged,
            Some((i, tcb)) => {
                self.state.tasks.put(i, ThreadControlBlock { async_preempt: None, ..tcb });
                match tcb.async_preempt {
                    None => AsyncResumeClass::NotStaged,
                    Some(tag) => {
                        if tag.tid == incoming_tid && tag.asid == incoming_asid {
                            AsyncResumeClass::Verbatim
                        } else {
                            AsyncResumeClass::Stale
                        }
                    },
                }
            },
        }
    }

    /// Drops the snapshot staged on `tid`; says whether there was one.
    pub fn cancel_async_preempt_for_split(&mut self, tid: u64) -> (r: bool)
        ensures
            r == (old(self)@.tasks.find(tid) matches Some(tcb) && tcb.async_preempt is Some),
            final(self)@ == (Kernel { tasks: async_taken(old(self)@.tasks, tid), ..old(self)@ }),
    {
        match self.state.tasks.lookup(tid) {
            None => false,
            Some((i, tcb)) => {
                self.state.tasks.put(i, ThreadControlBlock { async_preempt: None, ..tcb });
                tcb.async_preempt.is_some()
            },
        }
    }

    /// Observes an exiting incarnation; refused on a processor that is not online.
    pub fn post_lock_exit_validation_split(&self, cpu: CpuId, tid: u64, asid: Asid) -> (r: Result<
        PostLockExitValidation,
        KernelError,
    >)
        ensures
            match self@.sched.admits(cpu) {
                Err(e) => r == Err::<PostLockExitValidation, KernelError>(
                    KernelError::Scheduler(e),
                ),
                Ok(_) => r == Ok::<PostLockExitValidation, KernelError>(
                    PostLockExitValidation {
                        current: self@.sched.current_on(cpu),
                        identity_ok: match self@.tasks.find(tid) {
                            Some(tcb) => tcb.asid is None || tcb.asid == Some(asid),
                            None => true,
                        },
                        terminal: match self@.tasks.find(tid) {
                            Some(tcb) => tcb.status.spec_terminal(),
                            None => true,
                        },
                        in_runqueue: self@.sched.present(tid),
                    },
                ),
            },
    {
        if let Err(e) = self.state.sched.validate_online_cpu(cpu) {
            return Err(map_scheduler_error(e));
        }
        let current = self.state.sched.current_tid_on(cpu);
        let in_runqueue = self.state.sched.task_present_anywhere(tid);
        let (identity_ok, terminal) = match self.state.tasks.get(tid) {
            Some(tcb) => {
                let identity_ok = match tcb.asid {
                    Some(bound) => bound == asid,
                    None => true,
                };
                (identity_ok, tcb.status.terminal())
            },
            None => (true, true),
        };
        Ok(PostLockExitValidation { current, identity_ok, terminal, in_runqueue })
    }

    /// Takes what is needed to restore the replacement of an exited task.
    ///
    /// Refused for the idle task and for the exiting task itself, on a processor that is not
    /// online, and when the replacement is not the current task there.
    pub fn post_exit_replacement_restore_split(
        &mut self,
        cpu: CpuId,
        exiting_tid: u64,
        next_tid: u64,
        restore_frame: bool,
    ) -> (r: Result<ExitReplacementRestore, KernelError>)
        ensures
            if next_tid == IDLE_TID || next_tid == exiting_tid {
                r == Err::<ExitReplacementRestore, KernelError>(KernelError::TaskMissing)
                    && final(self)@ == old(self)@
            } else {
                match old(self)@.sched.admits(cpu) {
                    Err(e) => r == Err::<ExitReplacementRestore, KernelError>(
                        KernelError::Scheduler(e),
                    ) && final(self)@ == old(self)@,
                    Ok(_) => {
                        let bound = Kernel { sched: old(self)@.sched.bound(cpu), ..old(self)@ };
                        if old(self)@.sched.current_on(cpu) != Some(next_tid) {
                            r == Err::<ExitReplacementRestore, KernelError>(
                                KernelError::TaskMissing,
                            ) && final(self)@ == bound
                        } else if old(self)@.tasks.asid_of(next_tid) is None {
                            r == Ok::<ExitReplacementRestore, KernelError>(
                                ExitReplacementRestore {
                                    asid: None,
                                    facts: None,
                                    enter_idle: restore_frame,
                                },
                            ) && final(self)@ == bound
                        } else if !restore_frame {
                            r == Ok::<ExitReplacementRestore, KernelError>(
                                ExitReplacementRestore {
                                    asid: old(self)@.tasks.asid_of(next_tid),
                                    facts: None,
                                    enter_idle: false,
                                },
                            ) && final(self)@ == bound
                        } else {
                            r == Ok::<ExitReplacementRestore, KernelError>(
                                ExitReplacementRestore {
                                    asid: old(self)@.tasks.asid_of(next_tid),
                                    facts: Some(
                                        old(self)@.tasks.restore_facts(
                                            old(self)@.tasks.find(next_tid)->0,
                                        ),
                                    ),
                                    enter_idle: false,
                                },
                            ) && final(self)@ == (Kernel {
                                tasks: old(self)@.tasks.restore_taken(next_tid),
                                ..bound
                            })
                        }
                    },
                }
            },
    {
        if next_tid == IDLE_TID || next_tid == exiting_tid {
            return Err(KernelError::TaskMissing);
        }
        if let Err(e) = self.state.sched.validate_online_cpu(cpu) {
            return Err(map_scheduler_error(e));
        }
        self.state.sched.current_cpu = cpu;
        if self.state.sched.current_tid_on(cpu) != Some(next_tid) {
            return Err(KernelError::TaskMissing);
        }
        let asid = self.state.tasks.asid_of(next_tid);
        if asid.is_none() {
            return Ok(
                ExitReplacementRestore { asid: None, facts: None, enter_idle: restore_frame },
            );
        }
        let facts = if restore_frame {
            self.state.tasks.take_thread_restore_facts(next_tid)
        } else {
            None
        };
        Ok(ExitReplacementRestore { asid, facts, enter_idle: false })
    }

    /// Makes `cpu` the current processor and names the task that is current on it.
    pub fn post_switch_restore_admit_split(&mut self, cpu: CpuId) -> (r: Result<
        Option<u64>,
        KernelError,
    >)
        ensures
            match old(self)@.sched.admits(cpu) {
                Err(e) => r == Err::<Option<u64>, KernelError>(KernelError::Scheduler(e))
                    && final(self)@ == old(self)@,
                Ok(_) => r == Ok::<Option<u64>, KernelError>(old(self)@.sched.current_on(cpu))
                    && final(self)@ == (Kernel {
                    sched: old(self)@.sched.bound(cpu),
                    ..old(self)@
                }),
            },
    {
        if let Err(e) = self.state.sched.validate_online_cpu(cpu) {
            return Err(map_scheduler_error(e));
        }
        self.state.sched.current_cpu = cpu;
        Ok(self.state.sched.current_tid_on(cpu))
    }

    /// Takes everything that a restore of `tid` behind a switch needs.
    pub fn post_switch_restore_facts_split(&mut self, tid: u64) -> (r: PostSwitchRestoreOutcome<
        ThreadRestoreFacts,
    >)
        ensures
            if tid == IDLE_TID || old(self)@.tasks.asid_of(tid) is None {
                r is Idle && final(self)@ == old(self)@
            } else {
                r == PostSwitchRestoreOutcome::Facts(
                    old(self)@.tasks.restore_facts(old(self)@.tasks.find(tid)->0),
                ) && final(self)@ == (Kernel {
                    tasks: old(self)@.tasks.restore_taken(tid),
                    ..old(self)@
                })
            },
    {
        if tid == IDLE_TID {
            return PostSwitchRestoreOutcome::Idle;
        }
        if self.state.tasks.asid_of(tid).is_none() {
            return PostSwitchRestoreOutcome::Idle;
        }
        match self.state.tasks.take_thread_restore_facts(tid) {
            Some(facts) => PostSwitchRestoreOutcome::Facts(facts),
            None => PostSwitchRestoreOutcome::Missing,
        }
    }

    /// Takes the registers, storage base and address space of `tid` behind a switch.
    pub fn post_switch_restore_snapshot_split(&mut self, tid: u64) -> (r: Option<
        OwnerRevalidationSnapshot,
    >)
        ensures
            match old(self)@.tasks.find(tid) {
                Some(tcb) => {
                    &&& r matches Some(s) && s.context == tcb.user_context && s.tls == old(
                        self,
                    )@.tasks.tls_request(tcb) && s.asid == tcb.asid
                    &&& final(self)@ == (Kernel {
                        tasks: old(self)@.tasks.tls_taken(tid),
                        ..old(self)@
                    })
                },
                None => r is None && final(self)@ == old(self)@,
            },
    {
        self.owner_revalidation_snapshot_split(tid)
    }

    /// The saved state from which a secondary processor resumes `tid`.  The page-table
    /// root of its address space is the caller's to resolve; the resume waits for both.
    pub fn ap_saved_resume_context_split(&self, tid: u64, cr3: Option<u64>) -> (r: Option<
        ApSavedResumeContext,
    >)
        ensures
            match self@.tasks.find(tid) {
                Some(tcb) if tcb.asid is Some && cr3 is Some => r == Some(
                    ApSavedResumeContext {
                        asid: (tcb.asid->0).0,
                        cr3: cr3->0,
                        rip: tcb.user_context.instruction_ptr.0,
                        rsp: tcb.user_context.stack_ptr.0,
                        gprs: tcb.user_context.user_gprs,
                        fs_base: match tcb.tls_ptr {
                            Some(ptr) => ptr.0,
                            None => 0,
                        },
                        runnable_saved: (tcb.status is Runnable || tcb.status is Running)
                            && tcb.user_context.instruction_ptr.0 != 0
                            && tcb.user_context.stack_ptr.0 != 0,
                    },
                ),
                _ => r is None,
            },
    {
        let tcb = match self.state.tasks.get(tid) {
            Some(tcb) => tcb,
            None => {
                return None;
            },
        };
        let asid = match tcb.asid {
            Some(asid) => asid,
            None => {
                return None;
            },
        };
        let cr3 = match cr3 {
            Some(cr3) => cr3,
            None => {
                return None;
            },
        };
        let rip: u64 = tcb.user_context.instruction_ptr.0;
        let rsp: u64 = tcb.user_context.stack_ptr.0;
        let fs_base: u64 = match tcb.tls_ptr {
            Some(ptr) => ptr.0,
            None => 0,
        };
        let runnable_saved = matches!(tcb.status, TaskStatus::Runnable | TaskStatus::Running)
            && rip != 0 && rsp != 0;
        Some(
            ApSavedResumeContext {
                asid: asid.0,
                cr3,
                rip,
                rsp,
                gprs: tcb.user_context.user_gprs,
                fs_base,
                runnable_saved,
            },
        )
    }
}

} // verus!
