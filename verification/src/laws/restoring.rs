//! What a task finds when it runs again.
use vstd::prelude::*;

use crate::ids::{Asid, ThreadId};
use crate::kernel::Kernel;
use crate::runtime::dispatch::{DispatchMarkToken, MarkedIncarnation};
use crate::runtime::resume::{DirectDispatchWork, OutgoingObservation};
use crate::scheduler::{CpuSlot, RunEntry, Sched};
use crate::seqs;
use crate::task::{
    AsyncPreemptTag, BlockedSyscallClass, BlockedSyscallCompletion, TaskStatus, TaskTransition,
    Tasks, ThreadControlBlock, WaitReason,
};

verus! {

broadcast use crate::runtime::dispatch::lemma_token_parts;

/// Does the completion answer the block that the task is in: is it for this very incarnation, and
/// for the block that its class is at by now?
pub open spec fn answers(completion: BlockedSyscallCompletion, tcb: ThreadControlBlock) -> bool {
    &&& completion.tid == tcb.tid.0
    &&& tcb.asid == Some(completion.asid)
    &&& match completion.syscall_class {
        BlockedSyscallClass::IpcSend => completion.blocked_generation
            == tcb.blocked_send_generation,
        BlockedSyscallClass::IpcRecv => completion.blocked_generation
            == tcb.blocked_recv_generation,
    }
}

/// A completion is handed out exactly when it is of the class that is asked for and answers the
/// block the task is in.  One that is handed out takes the fired deadline with it, and a receive
/// also its buffers; one that answers an older block is dropped; one of the other class stays.
pub proof fn law_completion_reaches_its_block(tcb: ThreadControlBlock, class: BlockedSyscallClass)
    ensures
        ({
            let out = crate::task::completion_out(tcb, class);
            let left = crate::task::completion_taken(tcb, class);
            match tcb.pending_syscall_completion {
                None => out is None && left == tcb,
                Some(parked) => if parked.syscall_class != class {
                    out is None && left == tcb
                } else if answers(parked, tcb) {
                    &&& out == Some(parked)
                    &&& left.pending_syscall_completion is None
                    &&& !left.ipc_timeout_fired
                    &&& class is IpcRecv ==> left == (ThreadControlBlock {
                        pending_syscall_completion: None,
                        ipc_timeout_fired: false,
                        blocked_recv_state: None,
                        ..tcb
                    })
                    &&& class is IpcSend ==> left == (ThreadControlBlock {
                        pending_syscall_completion: None,
                        ipc_timeout_fired: false,
                        ..tcb
                    })
                } else {
                    out is None && left == (ThreadControlBlock {
                        pending_syscall_completion: None,
                        ..tcb
                    })
                },
            }
        }),
{
}

/// Does place `p` of the restore table name the task `tid`, and no earlier place?
pub open spec fn waits_for_pointer(tasks: Tasks, tid: u64, p: int) -> bool {
    &&& 0 <= p < tasks.tls_pending.len()
    &&& tasks.tls_pending[p] == Some(ThreadId(tid))
    &&& forall|q: int| 0 <= q < p ==> #[trigger] tasks.tls_pending[q] != Some(ThreadId(tid))
}

/// A resume installs the task's own thread pointer exactly when one waits to be restored; it then
/// waits no more.  A task that nothing waits for gets none.
pub proof fn law_thread_pointer_is_installed(tasks: Tasks, tcb: ThreadControlBlock, p: int)
    ensures
        waits_for_pointer(tasks, tcb.tid.0, p) ==> {
            &&& tasks.tls_request(tcb) == match tcb.tls_ptr {
                Some(pointer) => Some(pointer.0),
                None => None,
            }
            &&& tasks.tls_taken(tcb.tid.0) == (Tasks {
                tls_pending: tasks.tls_pending.update(p, None),
                ..tasks
            })
        },
        (forall|q: int|
            0 <= q < tasks.tls_pending.len() ==> #[trigger] tasks.tls_pending[q] != Some(tcb.tid))
            ==> tasks.tls_request(tcb) is None && tasks.tls_taken(tcb.tid.0) == tasks,
{
    let f = crate::task::pends(tcb.tid.0);
    if waits_for_pointer(tasks, tcb.tid.0, p) {
        seqs::lemma_first_where_is(tasks.tls_pending, f, p);
    }
    if forall|q: int|
        0 <= q < tasks.tls_pending.len() ==> #[trigger] tasks.tls_pending[q] != Some(tcb.tid) {
        seqs::lemma_first_where_is(tasks.tls_pending, f, tasks.tls_pending.len() as int);
    }
}

/// A resume of the task in slot `i` hands out its own registers, the pointer that waits for it and
/// the completion that answers its block, and takes all of that off it.
pub proof fn law_resume_hands_out_its_own(tasks: Tasks, i: int)
    requires
        tasks.apart(),
        0 <= i < tasks.tcbs.len(),
        tasks.tcbs[i] is Some,
    ensures
        ({
            let tcb = tasks.tcbs[i]->0;
            let facts = tasks.restore_facts(tcb);
            let after = tasks.restore_taken(tcb.tid.0);
            let parked = tcb.pending_syscall_completion;
            &&& facts.context == tcb.user_context
            &&& facts.tls == tasks.tls_request(tcb)
            &&& facts.send_completion == (if parked is Some && parked->0.syscall_class is IpcSend
                && answers(parked->0, tcb) {
                parked
            } else {
                None
            })
            &&& facts.recv_completion == (if parked is Some && parked->0.syscall_class is IpcRecv
                && answers(parked->0, tcb) {
                parked
            } else {
                None
            })
            &&& after.tls_pending == tasks.tls_taken(tcb.tid.0).tls_pending
            &&& after.tcbs.len() == tasks.tcbs.len()
            &&& forall|j: int|
                0 <= j < tasks.tcbs.len() && j != i ==> #[trigger] after.tcbs[j] == tasks.tcbs[j]
            &&& after.tcbs[i] is Some
            &&& after.tcbs[i]->0 == (ThreadControlBlock {
                pending_syscall_completion: None,
                ipc_timeout_fired: tcb.ipc_timeout_fired && !(parked is Some && answers(
                    parked->0,
                    tcb,
                )),
                blocked_recv_state: if parked is Some && parked->0.syscall_class is IpcRecv
                    && answers(parked->0, tcb) {
                    None
                } else {
                    tcb.blocked_recv_state
                },
                ..tcb
            })
        }),
{
    let tcb = tasks.tcbs[i]->0;
    crate::laws::slots::law_task_is_found_where_it_stands(tasks, i);
    law_completion_reaches_its_block(tcb, BlockedSyscallClass::IpcSend);
    law_completion_reaches_its_block(
        crate::task::completion_taken(tcb, BlockedSyscallClass::IpcSend),
        BlockedSyscallClass::IpcRecv,
    );
    let cleared = tasks.tls_taken(tcb.tid.0);
    assert(cleared.tcbs == tasks.tcbs);
    assert(cleared.slot(tcb.tid.0) == i);
}

/// A register snapshot is used as it is exactly by the incarnation it was staged for; it is stale
/// for any other, and taking it leaves none behind.
pub proof fn law_snapshot_is_for_its_incarnation(
    tasks: Tasks,
    i: int,
    tid: u64,
    asid: Option<Asid>,
)
    requires
        tasks.apart(),
        0 <= i < tasks.tcbs.len(),
        tasks.tcbs[i] is Some,
        tasks.tcbs[i]->0.tid.0 == tid,
    ensures
        ({
            let tcb = tasks.tcbs[i]->0;
            &&& crate::runtime::resume::async_class(tcb, tid, asid) is NotStaged
                <==> tcb.async_preempt is None
            &&& crate::runtime::resume::async_class(tcb, tid, asid) is Verbatim
                <==> tcb.async_preempt == Some(AsyncPreemptTag { tid, asid })
            &&& crate::runtime::resume::async_taken(tasks, tid) == (Tasks {
                tcbs: tasks.tcbs.update(
                    i,
                    Some(ThreadControlBlock { async_preempt: None, ..tcb }),
                ),
                ..tasks
            })
        }),
{
    crate::laws::slots::law_task_is_found_where_it_stands(tasks, i);
}

/// What is told of a task that gave its processor up is what it is doing: waiting for a message,
/// able to run, or something else.  An incarnation that is not there, and the idle task, are gone.
pub proof fn law_outgoing_task_is_seen_as_it_is(tasks: Tasks, work: DirectDispatchWork, i: int)
    requires
        tasks.apart(),
    ensures
        ({
            let seen = crate::runtime::resume::outgoing_observation(tasks, work);
            &&& work.outgoing_tid == 0 ==> seen is Gone
            &&& 0 <= i < tasks.tcbs.len() && tasks.tcbs[i] is Some
                && tasks.tcbs[i]->0.tid.0 == work.outgoing_tid && work.outgoing_tid != 0
                && tasks.tcbs[i]->0.asid == Some(Asid(work.outgoing_asid)) ==> seen == (
            match tasks.tcbs[i]->0.status {
                TaskStatus::Blocked(WaitReason::EndpointReceive(_)) =>
                    OutgoingObservation::StillBlocked,
                TaskStatus::Runnable | TaskStatus::Running => OutgoingObservation::MadeRunnable,
                _ => OutgoingObservation::OtherState,
            })
            &&& (forall|j: int|
                0 <= j < tasks.tcbs.len() && (#[trigger] tasks.tcbs[j]) is Some
                    ==> tasks.tcbs[j]->0.tid.0 != work.outgoing_tid || tasks.tcbs[j]->0.asid
                    != Some(Asid(work.outgoing_asid))) ==> seen is Gone
        }),
{
    if 0 <= i < tasks.tcbs.len() && tasks.tcbs[i] is Some {
        crate::laws::slots::law_task_is_found_where_it_stands(tasks, i);
    }
    let p = crate::task::is_incarnation(work.outgoing_tid, Some(Asid(work.outgoing_asid)));
    seqs::lemma_first_where(tasks.tcbs, p);
    let f = seqs::first_where(tasks.tcbs, p);
    if f < tasks.tcbs.len() {
        assert(tasks.tcbs[f] is Some);
    }
}

/// A marked dispatch of the user task in slot `i` can be taken back exactly while the task is
/// still running in the incarnation that was marked, still current on the processor it was marked
/// on, and there is room there.  It is then runnable and queued behind the others.
pub proof fn law_marked_dispatch_is_taken_back(k: Kernel, token: DispatchMarkToken, i: int)
    requires
        k.tasks.apart(),
        0 <= i < k.tasks.tcbs.len(),
        k.tasks.tcbs[i] is Some,
        k.tasks.tcbs[i]->0.tid.0 == token.spec_tid(),
        token.spec_incarnation() is User,
    ensures
        ({
            let tcb = k.tasks.tcbs[i]->0;
            let cpu = token.spec_cpu();
            let c = cpu.0 as int;
            let able = tcb.asid == Some(token.spec_incarnation()->asid) && tcb.status is Running
                && c < k.sched.cpus.len() && k.sched.cpus[c].online && k.sched.cpus[c].current
                == Some(tcb.tid.0) && k.sched.runnable_on(cpu) < 64;
            &&& crate::runtime::resume::can_roll_back(k, token) == able
            &&& able ==> k.tasks.transitioned(
                token.spec_tid(),
                TaskTransition::RollbackDispatchedIncoming,
            ) == (Tasks {
                tcbs: k.tasks.tcbs.update(
                    i,
                    Some(ThreadControlBlock { status: TaskStatus::Runnable, ..tcb }),
                ),
                ..k.tasks
            })
            &&& able ==> k.sched.reenqueued(cpu) == (Sched {
                cpus: k.sched.cpus.update(c, CpuSlot { current: None, ..k.sched.cpus[c] }),
                queue: k.sched.queue.push(
                    RunEntry {
                        cpu,
                        tid: tcb.tid.0,
                        priority: k.sched.cpus[c].current_priority,
                    },
                ),
                ..k.sched
            })
        }),
{
    crate::laws::slots::law_task_is_found_where_it_stands(k.tasks, i);
}

/// A mark leads to the incarnation it was made for and to no other: a user task by its number and
/// address space, and the idle task to nothing.
pub proof fn law_mark_leads_to_its_incarnation(tasks: Tasks, token: DispatchMarkToken, i: int)
    requires
        tasks.apart(),
    ensures
        token.spec_incarnation() is Idle ==> crate::runtime::resume::marked_task(tasks, token)
            is None,
        0 <= i < tasks.tcbs.len() && tasks.tcbs[i] is Some && tasks.tcbs[i]->0.tid.0
            == token.spec_tid() && tasks.tcbs[i]->0.asid is Some && token.spec_incarnation() == (
        MarkedIncarnation::User { asid: tasks.tcbs[i]->0.asid->0 })
            ==> crate::runtime::resume::marked_task(tasks, token) == tasks.tcbs[i],
        crate::runtime::resume::marked_task(tasks, token) matches Some(tcb) ==> tcb.tid.0
            == token.spec_tid() && tcb.asid is Some && token.spec_incarnation() == (
        MarkedIncarnation::User { asid: tcb.asid->0 }),
{
    if 0 <= i < tasks.tcbs.len() && tasks.tcbs[i] is Some {
        crate::laws::slots::law_task_is_found_where_it_stands(tasks, i);
    }
    if let MarkedIncarnation::User { asid } = token.spec_incarnation() {
        seqs::lemma_first_where(
            tasks.tcbs,
            crate::task::is_incarnation(token.spec_tid(), Some(asid)),
        );
    }
}

/// A status changes exactly for the task of that number, where the incarnation is the expected one
/// or none is expected, and where the task is in the state the change starts from.
pub proof fn law_status_changes_as_asked(
    tasks: Tasks,
    i: int,
    expect: Option<Asid>,
    transition: TaskTransition,
)
    requires
        tasks.apart(),
        0 <= i < tasks.tcbs.len(),
        tasks.tcbs[i] is Some,
    ensures
        ({
            let tcb = tasks.tcbs[i]->0;
            let verdict = tasks.transition_verdict(tcb.tid.0, expect, transition);
            let from = match transition {
                TaskTransition::DispatchIncoming => TaskStatus::Runnable,
                _ => TaskStatus::Running,
            };
            let to = match transition {
                TaskTransition::RollbackDispatchedIncoming => TaskStatus::Runnable,
                _ => TaskStatus::Running,
            };
            &&& verdict is Ok <==> (expect is None || expect == tcb.asid) && tcb.status == from
            &&& tasks.dispatch_verdict(tcb.tid.0, transition) is Ok <==> tcb.status == from || (
            tcb.tid.0 == 0 && (tcb.status is Runnable || tcb.status is Running))
            &&& tasks.transitioned(tcb.tid.0, transition) == (Tasks {
                tcbs: tasks.tcbs.update(i, Some(ThreadControlBlock { status: to, ..tcb })),
                ..tasks
            })
        }),
{
    crate::laws::slots::law_task_is_found_where_it_stands(tasks, i);
}

} // verus!
