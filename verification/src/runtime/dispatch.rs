//! Dispatching: which task runs next on a processor, and how a dispatch that cannot be
//! completed is undone.
use vstd::prelude::*;

use crate::ids::{Asid, CpuId, IDLE_TID};
use crate::kernel::Kernel;
use crate::runtime::SharedKernel;
use crate::scheduler::DispatchSelection;
use crate::task::{TaskTransition, UserRegisterContext};

verus! {

/// A dispatch with the processor whose run queue produced it.
#[derive(Clone, Copy, Debug, PartialEq, Eq, Structural)]
pub enum CpuDispatch {
    /// The dispatch ran on `cpu`, which was the current processor.
    Selected { cpu: CpuId, selection: DispatchSelection },
    /// The caller named another processor than the current one; nothing was done.
    RefusedCpuMismatch { requested: CpuId, authoritative: CpuId },
}

impl CpuDispatch {
    pub open spec fn spec_tid(self) -> Option<u64> {
        match self {
            CpuDispatch::Selected { selection, .. } => selection.spec_tid(),
            CpuDispatch::RefusedCpuMismatch { .. } => None,
        }
    }

    /// The selected task, if any.
    #[verifier::when_used_as_spec(spec_tid)]
    pub fn tid(self) -> (r: Option<u64>)
        ensures
            r == self.spec_tid(),
    {
        match self {
            CpuDispatch::Selected { selection, .. } => selection.tid(),
            CpuDispatch::RefusedCpuMismatch { .. } => None,
        }
    }

    /// A short stable name.
    pub fn marker(self) -> (r: &'static str)
        ensures
            r@ == match self {
                CpuDispatch::Selected { selection, .. } => selection.marker_text(),
                CpuDispatch::RefusedCpuMismatch { .. } => "refused_cpu_mismatch"@,
            },
    {
        match self {
            CpuDispatch::Selected { selection, .. } => selection.marker(),
            CpuDispatch::RefusedCpuMismatch { .. } => "refused_cpu_mismatch",
        }
    }
}

/// The exact task that a mark names; there is no wildcard.
#[derive(Clone, Copy, Debug, PartialEq, Eq, Structural)]
pub enum MarkedIncarnation {
    /// A user task, with its address space.
    User { asid: Asid },
    /// The idle task, which has none.
    Idle,
}

impl MarkedIncarnation {
    pub open spec fn spec_resolve(tid: u64, asid: Option<Asid>) -> Option<MarkedIncarnation> {
        if tid == IDLE_TID {
            Some(MarkedIncarnation::Idle)
        } else {
            match asid {
                Some(asid) => Some(MarkedIncarnation::User { asid }),
                None => None,
            }
        }
    }

    /// The exact identity of `tid`; a user task without an address space has none.
    #[verifier::when_used_as_spec(spec_resolve)]
    pub fn resolve(tid: u64, asid: Option<Asid>) -> (r: Option<MarkedIncarnation>)
        ensures
            r == MarkedIncarnation::spec_resolve(tid, asid),
    {
        if tid == IDLE_TID {
            return Some(MarkedIncarnation::Idle);
        }
        match asid {
            Some(asid) => Some(MarkedIncarnation::User { asid }),
            None => None,
        }
    }
}

/// Proof that a dispatch marked one incarnation as running on one processor.  Only a successful
/// mark makes one, apart from the two functions that forge one for tests.
#[derive(Clone, Copy, Debug, PartialEq, Eq, Structural)]
pub struct DispatchMarkToken {
    cpu: CpuId,
    tid: u64,
    incarnation: MarkedIncarnation,
    provenance: DispatchSelection,
}

impl DispatchMarkToken {
    /// The token of a mark of `tid` on `cpu`.
    pub closed spec fn spec_new(
        cpu: CpuId,
        tid: u64,
        incarnation: MarkedIncarnation,
        provenance: DispatchSelection,
    ) -> DispatchMarkToken {
        DispatchMarkToken { cpu, tid, incarnation, provenance }
    }

    pub closed spec fn spec_cpu(self) -> CpuId {
        self.cpu
    }

    pub closed spec fn spec_tid(self) -> u64 {
        self.tid
    }

    pub closed spec fn spec_incarnation(self) -> MarkedIncarnation {
        self.incarnation
    }

    pub closed spec fn spec_provenance(self) -> DispatchSelection {
        self.provenance
    }

    fn new(
        cpu: CpuId,
        tid: u64,
        incarnation: MarkedIncarnation,
        provenance: DispatchSelection,
    ) -> (r: DispatchMarkToken)
        ensures
            r == DispatchMarkToken::spec_new(cpu, tid, incarnation, provenance),
    {
        DispatchMarkToken { cpu, tid, incarnation, provenance }
    }

    /// The authority to undo a dequeue; only a mark that came from a dequeue of this very
    /// task has it.
    pub fn into_dequeued_authority(self) -> (r: Option<DequeuedDispatchMarkToken>)
        ensures
            r is Some <==> self.spec_provenance() == (DispatchSelection::Dequeued {
                tid: self.spec_tid(),
            }),
            r matches Some(authority) ==> authority.spec_token() == self,
    {
        match self.provenance {
            DispatchSelection::Dequeued { tid } => {
                if tid == self.tid {
                    Some(DequeuedDispatchMarkToken { inner: self })
                } else {
                    None
                }
            },
            _ => None,
        }
    }

    /// The task that was marked.
    pub fn tid(&self) -> (r: u64)
        ensures
            r == self.spec_tid(),
    {
        self.tid
    }

    /// The processor that it was marked on.
    pub fn cpu(&self) -> (r: CpuId)
        ensures
            r == self.spec_cpu(),
    {
        self.cpu
    }

    pub open spec fn spec_expect_asid(self) -> Option<Asid> {
        match self.spec_incarnation() {
            MarkedIncarnation::User { asid } => Some(asid),
            MarkedIncarnation::Idle => None,
        }
    }

    /// The address space to compare with; none for the idle task.
    pub fn expect_asid(&self) -> (r: Option<Asid>)
        ensures
            r == self.spec_expect_asid(),
    {
        match self.incarnation {
            MarkedIncarnation::User { asid } => Some(asid),
            MarkedIncarnation::Idle => None,
        }
    }

    /// The selection that was marked.
    pub fn provenance(&self) -> (r: DispatchSelection)
        ensures
            r == self.spec_provenance(),
    {
        self.provenance
    }
}

/// A token holds what it was made of.
pub broadcast proof fn lemma_token_parts(
    cpu: CpuId,
    tid: u64,
    incarnation: MarkedIncarnation,
    provenance: DispatchSelection,
)
    ensures
        (#[trigger] DispatchMarkToken::spec_new(cpu, tid, incarnation, provenance)).spec_cpu()
            == cpu,
        DispatchMarkToken::spec_new(cpu, tid, incarnation, provenance).spec_tid() == tid,
        DispatchMarkToken::spec_new(cpu, tid, incarnation, provenance).spec_incarnation()
            == incarnation,
        DispatchMarkToken::spec_new(cpu, tid, incarnation, provenance).spec_provenance()
            == provenance,
{
}

/// Proof that a dequeue was marked.  It can only be made from a mark that came from one.
#[derive(Clone, Copy, Debug, PartialEq, Eq, Structural)]
pub struct DequeuedDispatchMarkToken {
    inner: DispatchMarkToken,
}

impl DequeuedDispatchMarkToken {
    pub closed spec fn spec_token(self) -> DispatchMarkToken {
        self.inner
    }

    /// The mark behind the authority.
    pub fn token(self) -> (r: DispatchMarkToken)
        ensures
            r == self.spec_token(),
    {
        self.inner
    }
}

/// What an attempt to mark a dispatched task as running did.
#[derive(Clone, Copy, Debug, PartialEq, Eq, Structural)]
pub enum DispatchMarkOutcome {
    /// The task runs and may be resumed.
    Marked(DispatchMarkToken),
    /// Nothing was selected.
    Idle,
    /// Refused; the dequeue was undone and nothing is current.
    RefusedRolledBack,
    /// Refused; the scheduler was not touched.
    RefusedNoSchedulerChange,
    /// Refused, and the scheduler could not be put back.
    RefusedTorn,
}

/// What a mark outcome allows its caller to do.
#[derive(Clone, Copy, Debug, PartialEq, Eq, Structural)]
pub enum DispatchDisposition {
    ResumeIncoming,
    SettleIdle,
    DeclineDequeueUndone,
    DeclineSchedulerUntouched,
    Fatal,
}

impl DispatchMarkOutcome {
    /// The token, when there is one.
    pub fn token(self) -> (r: Option<DispatchMarkToken>)
        ensures
            r == match self {
                DispatchMarkOutcome::Marked(t) => Some(t),
                _ => None,
            },
    {
        match self {
            DispatchMarkOutcome::Marked(t) => Some(t),
            _ => None,
        }
    }

    pub open spec fn spec_disposition(self) -> DispatchDisposition {
        match self {
            DispatchMarkOutcome::Marked(_) => DispatchDisposition::ResumeIncoming,
            DispatchMarkOutcome::Idle => DispatchDisposition::SettleIdle,
            DispatchMarkOutcome::RefusedRolledBack => DispatchDisposition::DeclineDequeueUndone,
            DispatchMarkOutcome::RefusedNoSchedulerChange =>
                DispatchDisposition::DeclineSchedulerUntouched,
            DispatchMarkOutcome::RefusedTorn => DispatchDisposition::Fatal,
        }
    }

    /// What the caller may do.
    #[verifier::when_used_as_spec(spec_disposition)]
    pub fn disposition(self) -> (r: DispatchDisposition)
        ensures
            r == self.spec_disposition(),
    {
        match self {
            DispatchMarkOutcome::Marked(_) => DispatchDisposition::ResumeIncoming,
            DispatchMarkOutcome::Idle => DispatchDisposition::SettleIdle,
            DispatchMarkOutcome::RefusedRolledBack => DispatchDisposition::DeclineDequeueUndone,
            DispatchMarkOutcome::RefusedNoSchedulerChange =>
                DispatchDisposition::DeclineSchedulerUntouched,
            DispatchMarkOutcome::RefusedTorn => DispatchDisposition::Fatal,
        }
    }
}

/// Result of looking again for an owner of an idle processor.
#[derive(Clone, Copy, Debug, PartialEq, Eq, Structural)]
pub enum OwnerRevalidation {
    /// No task was made current.
    Idle,
    /// The task was made current and can be restored.
    Replacement(u64),
    /// The task was made current and cannot be restored.
    RestoreFailed { tid: u64, rolled_back: bool },
}

/// What to do with the result of looking again.
#[derive(Clone, Copy, Debug, PartialEq, Eq, Structural)]
pub enum OwnerCommit {
    Idle,
    Replacement(u64),
    /// The task is still current and can neither run nor be taken back.
    FailClosed(u64),
}

impl OwnerRevalidation {
    pub open spec fn spec_disposition(self) -> OwnerCommit {
        match self {
            OwnerRevalidation::Idle => OwnerCommit::Idle,
            OwnerRevalidation::Replacement(tid) => OwnerCommit::Replacement(tid),
            OwnerRevalidation::RestoreFailed { tid, rolled_back } => if rolled_back {
                OwnerCommit::Idle
            } else {
                OwnerCommit::FailClosed(tid)
            },
        }
    }

    /// Idling is safe unless a task stayed current.
    #[verifier::when_used_as_spec(spec_disposition)]
    pub fn disposition(self) -> (r: OwnerCommit)
        ensures
            r == self.spec_disposition(),
    {
        match self {
            OwnerRevalidation::Idle => OwnerCommit::Idle,
            OwnerRevalidation::Replacement(tid) => OwnerCommit::Replacement(tid),
            OwnerRevalidation::RestoreFailed { tid, rolled_back } => {
                if rolled_back {
                    OwnerCommit::Idle
                } else {
                    OwnerCommit::FailClosed(tid)
                }
            },
        }
    }
}

/// The processor that was looked at and the task that was made current on it.
#[derive(Clone, Copy, Debug, PartialEq, Eq, Structural)]
pub struct OwnerRevalidationSelection {
    pub cpu: CpuId,
    pub tid: u64,
}

/// What a restore of a task needs from the task domain.
#[derive(Clone, Copy, Debug)]
pub struct OwnerRevalidationSnapshot {
    pub context: UserRegisterContext,
    pub tls: Option<u64>,
    pub asid: Option<Asid>,
}

/// Status change that a dispatch asks of the selected task.
pub open spec fn mark_transition(selection: DispatchSelection) -> TaskTransition {
    match selection {
        DispatchSelection::ContinuedCurrent { .. } => TaskTransition::ContinueCurrent,
        _ => TaskTransition::DispatchIncoming,
    }
}

impl Kernel {
    /// What a dispatch step asked for by `cpu` returns.
    pub open spec fn step_result(self, cpu: CpuId) -> CpuDispatch {
        if self.sched.current_cpu != cpu {
            CpuDispatch::RefusedCpuMismatch {
                requested: cpu,
                authoritative: self.sched.current_cpu,
            }
        } else {
            CpuDispatch::Selected { cpu, selection: self.sched.selection_on(cpu) }
        }
    }

    /// The state after a dispatch step asked for by `cpu`.
    pub open spec fn after_step(self, cpu: CpuId) -> Kernel {
        if self.sched.current_cpu != cpu {
            self
        } else {
            Kernel { sched: self.sched.dispatched(cpu), ..self }
        }
    }

    /// What undoing `selection` on `cpu` returns.
    pub open spec fn undo_result(self, selection: DispatchSelection, cpu: CpuId) -> DispatchMarkOutcome {
        match selection {
            DispatchSelection::Idle => DispatchMarkOutcome::Idle,
            DispatchSelection::ContinuedCurrent { .. } =>
                DispatchMarkOutcome::RefusedNoSchedulerChange,
            DispatchSelection::Dequeued { tid } => if self.sched.current_on(cpu) == Some(tid)
                && self.sched.can_reenqueue(cpu) {
                DispatchMarkOutcome::RefusedRolledBack
            } else {
                DispatchMarkOutcome::RefusedTorn
            },
        }
    }

    /// The state after undoing `selection` on `cpu`: only a dequeue is undone, and only
    /// while its task is still current.
    pub open spec fn after_undo(self, selection: DispatchSelection, cpu: CpuId) -> Kernel {
        if self.undo_result(selection, cpu) is RefusedRolledBack {
            Kernel { sched: self.sched.reenqueued(cpu), ..self }
        } else {
            self
        }
    }

    /// The mark that the selected task gets, if it has an exact identity and the right status.
    pub open spec fn mark_of(self, cpu: CpuId, selection: DispatchSelection) -> Option<
        DispatchMarkToken,
    > {
        match selection.spec_tid() {
            None => None,
            Some(tid) => match MarkedIncarnation::spec_resolve(tid, self.tasks.asid_of(tid)) {
                Some(incarnation) if self.tasks.dispatch_verdict(
                    tid,
                    mark_transition(selection),
                ) is Ok => Some(
                    DispatchMarkToken::spec_new(cpu, tid, incarnation, selection),
                ),
                _ => None,
            },
        }
    }

    /// What marking a dispatch returns.
    pub open spec fn mark_result(self, dispatch: CpuDispatch) -> DispatchMarkOutcome {
        match dispatch {
            CpuDispatch::RefusedCpuMismatch { .. } => DispatchMarkOutcome::RefusedNoSchedulerChange,
            CpuDispatch::Selected { cpu, selection } => match self.mark_of(cpu, selection) {
                Some(token) => DispatchMarkOutcome::Marked(token),
                None => self.undo_result(selection, cpu),
            },
        }
    }

    /// The state after marking a dispatch.
    pub open spec fn after_mark(self, dispatch: CpuDispatch) -> Kernel {
        match dispatch {
            CpuDispatch::RefusedCpuMismatch { .. } => self,
            CpuDispatch::Selected { cpu, selection } => match self.mark_of(cpu, selection) {
                Some(token) => Kernel {
                    tasks: self.tasks.transitioned(token.spec_tid(), mark_transition(selection)),
                    ..self
                },
                None => self.after_undo(selection, cpu),
            },
        }
    }

    /// The state in which `cpu` is current and has dispatched.
    pub open spec fn after_owner_select(self, cpu: CpuId) -> Kernel {
        if self.sched.online(cpu) {
            Kernel { sched: self.sched.bound(cpu).dispatched(cpu), ..self }
        } else {
            self
        }
    }

    /// The task that looking again on `cpu` makes current.
    pub open spec fn owner_selected(self, cpu: CpuId) -> Option<u64> {
        if self.sched.online(cpu) {
            self.sched.selection_on(cpu).spec_tid()
        } else {
            None
        }
    }
}

/// Was the selection taken back?
pub open spec fn owner_rolled_back(k: Kernel, cpu: CpuId, tid: u64, restorable: bool) -> bool {
    k.sched.online(cpu) && k.sched.current_on(cpu) == Some(tid) && (!restorable || (
    k.tasks.find(tid) is Some && (Kernel { sched: k.sched.cleared(cpu), ..k }).enqueue_verdict(
        cpu,
        tid,
    ) is Ok))
}

/// The state after a selection that cannot be restored was taken back.
pub open spec fn after_owner_rollback(k: Kernel, cpu: CpuId, tid: u64, restorable: bool) -> Kernel {
    let cleared = if k.sched.online(cpu) {
        Kernel { sched: k.sched.cleared(cpu), ..k }
    } else {
        k
    };
    if restorable && k.tasks.find(tid) is Some {
        cleared.enqueued(cpu, tid)
    } else {
        cleared
    }
}

impl SharedKernel {
    /// The task that is current on `cpu`; none when `cpu` is not online.
    pub fn current_tid_authoritative(&self, cpu: CpuId) -> (r: Option<u64>)
        ensures
            r == if self@.sched.online(cpu) {
                self@.sched.current_on(cpu)
            } else {
                None
            },
    {
        if self.state.sched.validate_online_cpu(cpu).is_err() {
            return None;
        }
        self.state.sched.current_tid_on(cpu)
    }

    /// The task that is current on `cpu`, without asking whether `cpu` is online.
    pub fn current_tid_split_read(&self, cpu: CpuId) -> (r: Option<u64>)
        ensures
            r == self@.sched.current_on(cpu),
    {
        self.state.sched.current_tid_on(cpu)
    }

    /// The processor that is current.
    pub fn current_cpu_split_read(&self) -> (r: CpuId)
        ensures
            r == self@.sched.current_cpu,
    {
        self.state.sched.current_cpu
    }

    /// The task that is current on the current processor.
    pub fn d6_genuine_local_dispatch_observe(&self, _cpu: CpuId) -> (r: Option<u64>)
        ensures
            r == self@.sched.current_on(self@.sched.current_cpu),
    {
        self.state.sched.current_tid_on(self.state.sched.current_cpu)
    }

    /// Would a dispatch on the current processor leave the run queue alone?
    pub fn d6_genuine_dispatch_queue_neutral(&self, _cpu: CpuId) -> (r: bool)
        ensures
            r == !(self@.sched.runnable_on(self@.sched.current_cpu) > 0 && (self@.sched.current_on(
                self@.sched.current_cpu,
            ) is None || self@.sched.current_on(self@.sched.current_cpu) == Some(IDLE_TID))),
    {
        let cpu = self.state.sched.current_cpu;
        let idle = match self.state.sched.current_tid_on(cpu) {
            None => true,
            Some(tid) => tid == IDLE_TID,
        };
        !(self.state.sched.runnable_count_on(cpu) > 0 && idle)
    }

    /// Dispatches on `cpu`, if `cpu` is the current processor.
    fn dispatch_step(&mut self, cpu: CpuId) -> (r: CpuDispatch)
        ensures
            r == old(self)@.step_result(cpu),
            final(self)@ == old(self)@.after_step(cpu),
    {
        let authoritative = self.state.sched.current_cpu;
        if authoritative != cpu {
            return CpuDispatch::RefusedCpuMismatch { requested: cpu, authoritative };
        }
        let selection = self.state.sched.dispatch_next_selection_on(cpu);
        CpuDispatch::Selected { cpu, selection }
    }

    /// The dispatch step of a local reschedule.
    pub fn d6_genuine_local_dispatch_step_mut(&mut self, cpu: CpuId) -> (r: CpuDispatch)
        ensures
            r == old(self)@.step_result(cpu),
            final(self)@ == old(self)@.after_step(cpu),
    {
        self.dispatch_step(cpu)
    }

    /// The dispatch step behind a receive that blocked.
    pub fn d2_recv_dispatch_step_mut(&mut self, cpu: CpuId) -> (r: CpuDispatch)
        ensures
            r == old(self)@.step_result(cpu),
            final(self)@ == old(self)@.after_step(cpu),
    {
        self.dispatch_step(cpu)
    }

    /// The dispatch step behind a send that blocked.
    pub fn d2_send_dispatch_step_mut(&mut self, cpu: CpuId) -> (r: CpuDispatch)
        ensures
            r == old(self)@.step_result(cpu),
            final(self)@ == old(self)@.after_step(cpu),
    {
        self.dispatch_step(cpu)
    }

    /// The dispatch step behind a futex wait.
    pub fn futex_wait_dispatch_step_mut(&mut self, cpu: CpuId) -> (r: CpuDispatch)
        ensures
            r == old(self)@.step_result(cpu),
            final(self)@ == old(self)@.after_step(cpu),
    {
        self.dispatch_step(cpu)
    }

    /// The dispatch step behind a yield.
    pub fn yield_dispatch_step_mut(&mut self, cpu: CpuId) -> (r: CpuDispatch)
        ensures
            r == old(self)@.step_result(cpu),
            final(self)@ == old(self)@.after_step(cpu),
    {
        self.dispatch_step(cpu)
    }

    /// Marks the dispatched task as running, or undoes the dispatch.
    ///
    /// The exact identity is found before the status is touched, so a refusal changes no task.
    pub fn d6_genuine_mark_running_via_task_seam(&mut self, dispatch: CpuDispatch) -> (r:
        DispatchMarkOutcome)
        ensures
            r == old(self)@.mark_result(dispatch),
            final(self)@ == old(self)@.after_mark(dispatch),
    {
        let (cpu, selection) = match dispatch {
            CpuDispatch::Selected { cpu, selection } => (cpu, selection),
            CpuDispatch::RefusedCpuMismatch { .. } => {
                return DispatchMarkOutcome::RefusedNoSchedulerChange;
            },
        };
        let (tid, transition) = match selection {
            DispatchSelection::Idle => {
                return DispatchMarkOutcome::Idle;
            },
            DispatchSelection::Dequeued { tid } => (tid, TaskTransition::DispatchIncoming),
            DispatchSelection::ContinuedCurrent { tid } => (tid, TaskTransition::ContinueCurrent),
        };
        let asid = self.state.tasks.asid_of(tid);
        match MarkedIncarnation::resolve(tid, asid) {
            None => self.undo_dispatch_selection(selection, cpu),
            Some(incarnation) => {
                match self.state.tasks.apply_dispatch_transition(tid, transition) {
                    Ok(_) => DispatchMarkOutcome::Marked(
                        DispatchMarkToken::new(cpu, tid, incarnation, selection),
                    ),
                    Err(_) => self.undo_dispatch_selection(selection, cpu),
                }
            },
        }
    }

    /// Undoes what `selection` did to the scheduler, and nothing more.
    fn undo_dispatch_selection(&mut self, selection: DispatchSelection, cpu: CpuId) -> (r:
        DispatchMarkOutcome)
        ensures
            r == old(self)@.undo_result(selection, cpu),
            final(self)@ == old(self)@.after_undo(selection, cpu),
    {
        match selection {
            DispatchSelection::Idle => DispatchMarkOutcome::Idle,
            DispatchSelection::ContinuedCurrent { .. } =>
                DispatchMarkOutcome::RefusedNoSchedulerChange,
            DispatchSelection::Dequeued { tid } => {
                if self.current_tid_authoritative(cpu) != Some(tid) {
                    return DispatchMarkOutcome::RefusedTorn;
                }
                let restored = self.state.sched.preempt_reenqueue_only_on(cpu);
                if restored == Some(tid) {
                    DispatchMarkOutcome::RefusedRolledBack
                } else {
                    DispatchMarkOutcome::RefusedTorn
                }
            },
        }
    }

    /// A mark that claims to come from a dequeue of another incarnation.
    pub fn stale_dispatch_mark_token_for_test(&self, cpu: CpuId, tid: u64, asid: Asid) -> (r:
        DispatchMarkToken)
        ensures
            r == DispatchMarkToken::spec_new(
                cpu,
                tid,
                MarkedIncarnation::User { asid },
                DispatchSelection::Dequeued { tid },
            ),
    {
        DispatchMarkToken::new(
            cpu,
            tid,
            MarkedIncarnation::User { asid },
            DispatchSelection::Dequeued { tid },
        )
    }

    /// A mark that came from a task that went on running.
    pub fn continued_dispatch_mark_token_for_test(&self, cpu: CpuId, tid: u64, asid: Asid) -> (r:
        DispatchMarkToken)
        ensures
            r == DispatchMarkToken::spec_new(
                cpu,
                tid,
                MarkedIncarnation::User { asid },
                DispatchSelection::ContinuedCurrent { tid },
            ),
    {
        DispatchMarkToken::new(
            cpu,
            tid,
            MarkedIncarnation::User { asid },
            DispatchSelection::ContinuedCurrent { tid },
        )
    }

    /// Looks again, on behalf of a processor that is about to idle, for a task to run.
    ///
    /// A task that is found comes with what its restore needs.  One that cannot be
    /// restored is taken off the processor again.
    pub fn revalidate_idle_owner_after_drains(&mut self, cpu: CpuId) -> (r: (
        OwnerRevalidation,
        Option<OwnerRevalidationSnapshot>,
    ))
        ensures
            match old(self)@.owner_selected(cpu) {
                None => r.0 == OwnerRevalidation::Idle && r.1 is None && final(self)@ == old(
                    self,
                )@.after_owner_select(cpu),
                Some(tid) => if tid == IDLE_TID {
                    r.0 == OwnerRevalidation::Idle && r.1 is None && final(self)@ == old(
                        self,
                    )@.after_owner_select(cpu)
                } else {
                    match old(self)@.tasks.find(tid) {
                        Some(tcb) => {
                            &&& r.0 == OwnerRevalidation::Replacement(tid)
                            &&& r.1 matches Some(s) && s.context == tcb.user_context && s.tls
                                == old(self)@.tasks.tls_request(tcb) && s.asid == tcb.asid
                            &&& final(self)@ == (Kernel {
                                tasks: old(self)@.tasks.tls_taken(tid),
                                ..old(self)@.after_owner_select(cpu)
                            })
                        },
                        None => {
                            &&& r.0 == (OwnerRevalidation::RestoreFailed { tid, rolled_back: true })
                            &&& r.1 is None
                            &&& final(self)@ == after_owner_rollback(
                                old(self)@.after_owner_select(cpu),
                                cpu,
                                tid,
                                false,
                            )
                        },
                    }
                },
            },
    {
        let selection = match self.owner_revalidation_select_split(cpu) {
            None => {
                return (OwnerRevalidation::Idle, None);
            },
            Some(selection) => selection,
        };
        if selection.tid == IDLE_TID {
            return (OwnerRevalidation::Idle, None);
        }
        match self.owner_revalidation_snapshot_split(selection.tid) {
            Some(snapshot) => (OwnerRevalidation::Replacement(selection.tid), Some(snapshot)),
            None => (self.owner_revalidation_rollback_split(selection, false), None),
        }
    }

    /// Makes `cpu` the current processor and dispatches on it.
    pub fn owner_revalidation_select_split(&mut self, cpu: CpuId) -> (r: Option<
        OwnerRevalidationSelection,
    >)
        ensures
            r == match old(self)@.owner_selected(cpu) {
                Some(tid) => Some(OwnerRevalidationSelection { cpu, tid }),
                None => None,
            },
            final(self)@ == old(self)@.after_owner_select(cpu),
            old(self)@.owner_selected(cpu) matches Some(tid) ==> final(self)@.sched.current_on(cpu)
                == Some(tid),
    {
        if self.state.sched.validate_online_cpu(cpu).is_err() {
            return None;
        }
        self.state.sched.current_cpu = cpu;
        match self.state.sched.dispatch_next_on(cpu) {
            Some(tid) => Some(OwnerRevalidationSelection { cpu, tid }),
            None => None,
        }
    }

    /// Takes what a restore of `tid` needs; nothing when there is no such task.
    pub fn owner_revalidation_snapshot_split(&mut self, tid: u64) -> (r: Option<
        OwnerRevalidationSnapshot,
    >)
        ensures
            match old(self)@.tasks.find(tid) {
                Some(tcb) => {
                    &&& r matches Some(s) && s.context == tcb.user_context && s.tls == old(
                        self,
                    )@.tasks.tls_request(tcb) && s.asid == tcb.asid
                    &&& final(self)@ == (Kernel {
                        tasks: old(self)@.tasks.tls_taken(tid),
                        ..old(self)@
                    })
                },
                None => r is None && final(self)@ == old(self)@,
            },
    {
        match self.state.tasks.get(tid) {
            None => None,
            Some(tcb) => {
                let tls = self.state.tasks.take_tls_request(tcb);
                Some(OwnerRevalidationSnapshot { context: tcb.user_context, tls, asid: tcb.asid })
            },
        }
    }

    /// Takes a selection back: clears the processor and, when the task can still run, puts
    /// it on the run queue again.
    ///
    /// As in a hosted build, the first user task may go to any processor.  A freestanding build
    /// asks `rollback_breaks_pin_split_read` first, and halts.
    pub fn owner_revalidation_rollback_split(
        &mut self,
        selection: OwnerRevalidationSelection,
        restorable: bool,
    ) -> (r: OwnerRevalidation)
        ensures
            r == (OwnerRevalidation::RestoreFailed {
                tid: selection.tid,
                rolled_back: owner_rolled_back(
                    old(self)@,
                    selection.cpu,
                    selection.tid,
                    restorable,
                ),
            }),
            final(self)@ == after_owner_rollback(
                old(self)@,
                selection.cpu,
                selection.tid,
                restorable,
            ),
    {
        let cpu = selection.cpu;
        let tid = selection.tid;
        let cleared = self.state.sched.block_current_on(cpu) == Some(tid);
        let requeued = if !restorable {
            true
        } else if self.state.tasks.get(tid).is_none() {
            false
        } else {
            match self.state.tasks.enqueue_policy(tid) {
                Err(_) => false,
                Ok(priority) => self.state.sched.enqueue_on_with_priority(
                    cpu,
                    tid,
                    priority,
                ).is_ok(),
            }
        };
        OwnerRevalidation::RestoreFailed { tid, rolled_back: cleared && requeued }
    }

    /// Is `tid` still blocked in a receive?
    pub fn d2_recv_reverify_blocked(&self, tid: u64) -> (r: bool)
        ensures
            r == (self@.tasks.find(tid) matches Some(tcb) && tcb.status.spec_receiving()),
    {
        match self.state.tasks.get(tid) {
            Some(tcb) => tcb.status.receiving(),
            None => false,
        }
    }

    /// Is `tid` still blocked in a send?
    pub fn d2_send_reverify_blocked(&self, tid: u64) -> (r: bool)
        ensures
            r == (self@.tasks.find(tid) matches Some(tcb) && tcb.status.spec_sending()),
    {
        match self.state.tasks.get(tid) {
            Some(tcb) => tcb.status.sending(),
            None => false,
        }
    }

    /// Is `tid` still blocked on a futex word?
    pub fn futex_wait_reverify_blocked(&self, tid: u64) -> (r: bool)
        ensures
            r == (self@.tasks.find(tid) matches Some(tcb) && tcb.status.spec_in_futex()),
    {
        match self.state.tasks.get(tid) {
            Some(tcb) => tcb.status.in_futex(),
            None => false,
        }
    }

    /// Is nothing current on `cpu`?
    pub fn yield_reverify_ready(&self, cpu: CpuId) -> (r: bool)
        ensures
            r == (self@.sched.current_on(cpu) is None),
    {
        self.state.sched.current_tid_on(cpu).is_none()
    }

    /// Can the kernel switch to `tid` by its kernel stack?
    pub fn d2_recv_incoming_has_kernel_switch_ctx(&self, tid: u64) -> (r: bool)
        ensures
            r == (self@.tasks.find(tid) matches Some(tcb) && tcb.kernel_context.initialized),
    {
        match self.state.tasks.get(tid) {
            Some(tcb) => tcb.kernel_context.initialized,
            None => false,
        }
    }

    /// Does the scheduler agree that `incoming` is current on `cpu`?
    pub fn direct_dispatch_current_agrees_split_read(&self, cpu: CpuId, incoming: u64) -> (r: bool)
        ensures
            r == (self@.sched.online(cpu) && self@.sched.current_on(cpu) == Some(incoming)),
    {
        self.current_tid_authoritative(cpu) == Some(incoming)
    }
}

} // verus!
