//! Blocking a sender, and marking what a dispatch selected, said of slots, places and processors.
use vstd::prelude::*;

use crate::deferred::BlockingSendCommitSnapshot;
use crate::ids::{CpuId, ThreadId};
use crate::ipc::{Ipc, SenderWaiter};
use crate::kernel::Kernel;
use crate::runtime::dispatch::{CpuDispatch, DispatchMarkOutcome};
use crate::runtime::wake::BlockingSendCommitOutcome;
use crate::scheduler::{CpuSlot, DispatchSelection, RunEntry, Sched, SchedulerTimer};
use crate::seqs;
use crate::task::{TaskStatus, Tasks, ThreadControlBlock, WaitReason};

verus! {

broadcast use crate::runtime::dispatch::lemma_token_parts;

/// May the task in slot `i` block in this send: it is current on the current processor, not
/// blocked, and the endpoint is the one that was meant and does not hold a send of it?
pub open spec fn may_commit(k: Kernel, snap: BlockingSendCommitSnapshot, i: int) -> bool {
    let e = snap.endpoint_idx as int;
    let c = snap.cpu.0 as int;
    &&& k.tasks.apart()
    &&& k.sched.current_cpu == snap.cpu
    &&& c < k.sched.cpus.len()
    &&& k.sched.cpus[c].current == Some(snap.sender_tid)
    &&& 0 <= i < k.tasks.tcbs.len()
    &&& k.tasks.tcbs[i] is Some
    &&& k.tasks.tcbs[i]->0.tid.0 == snap.sender_tid
    &&& k.tasks.tcbs[i]->0.asid == Some(snap.sender_asid)
    &&& !(k.tasks.tcbs[i]->0.status is Blocked)
    &&& k.tasks.tcbs[i]->0.blocked_send_generation < u64::MAX
    &&& e < k.ipc.endpoints.len()
    &&& k.ipc.endpoints[e].mode is Some
    &&& k.ipc.endpoints[e].generation == snap.endpoint_generation
    &&& forall|m: int|
        8 * e <= m < 8 * e + 8 && m < k.ipc.senders.len() && (#[trigger] k.ipc.senders[m]) is Some
            ==> k.ipc.senders[m]->0.tid.0 != snap.sender_tid
}

/// Is `s` the first free place for a sender at endpoint `e`?
pub open spec fn first_free(k: Kernel, e: int, s: int) -> bool {
    &&& 8 * e <= s < 8 * e + 8
    &&& 0 <= s < k.ipc.senders.len()
    &&& k.ipc.senders[s] is None
    &&& forall|m: int| 8 * e <= m < s ==> (#[trigger] k.ipc.senders[m]) is Some
}

proof fn lemma_row(k: Kernel, e: int, tid: u64)
    requires
        0 <= e,
    ensures
        forall|m: int|
            0 <= m < k.ipc.row(e).len() ==> #[trigger] k.ipc.row(e)[m] == k.ipc.senders[8 * e + m],
        k.ipc.row(e).len() == (if 8 * e + 8 <= k.ipc.senders.len() {
            8
        } else if 8 * e <= k.ipc.senders.len() {
            k.ipc.senders.len() - 8 * e
        } else {
            0
        }),
{
}

/// A send that may block does, where a place is free: it is committed under the next generation,
/// its message waits in the first free place of the endpoint under that generation, the sender is
/// blocked by the capability it sent with and has the deadline that was asked for, and its
/// processor, where online, is free with a fresh quantum.  Nothing else changes.
pub proof fn law_send_blocks_its_sender(
    k: Kernel,
    snap: BlockingSendCommitSnapshot,
    i: int,
    s: int,
)
    requires
        may_commit(k, snap, i),
        first_free(k, snap.endpoint_idx as int, s),
    ensures
        ({
            let tcb = k.tasks.tcbs[i]->0;
            let c = snap.cpu.0 as int;
            let generation = (tcb.blocked_send_generation + 1) as u64;
            &&& k.send_commit_result(snap) == (BlockingSendCommitOutcome::Committed {
                send_generation: generation,
            })
            &&& k.after_send_commit(snap) == (Kernel {
                ipc: Ipc {
                    senders: k.ipc.senders.update(
                        s,
                        Some(
                            SenderWaiter {
                                tid: ThreadId(snap.sender_tid),
                                asid: Some(snap.sender_asid),
                                send_generation: generation,
                                msg: snap.msg,
                            },
                        ),
                    ),
                    ..k.ipc
                },
                tasks: Tasks {
                    tcbs: k.tasks.tcbs.update(
                        i,
                        Some(
                            ThreadControlBlock {
                                status: TaskStatus::Blocked(
                                    WaitReason::EndpointSend(snap.send_cap),
                                ),
                                ipc_timeout_deadline: snap.deadline,
                                ipc_timeout_fired: false,
                                blocked_send_generation: generation,
                                ..tcb
                            },
                        ),
                    ),
                    ..k.tasks
                },
                sched: Sched {
                    cpus: if k.sched.cpus[c].online {
                        k.sched.cpus.update(c, CpuSlot { current: None, ..k.sched.cpus[c] })
                    } else {
                        k.sched.cpus
                    },
                    timer: SchedulerTimer { quantum_used: 0, ..k.sched.timer },
                    ..k.sched
                },
                ..k
            })
        }),
{
    let e = snap.endpoint_idx as int;
    let row = k.ipc.row(e);
    crate::laws::slots::law_task_is_found_where_it_stands(k.tasks, i);
    lemma_row(k, e, snap.sender_tid);
    assert(row[s - 8 * e] is None);
    assert forall|m: int| 0 <= m < s - 8 * e implies !crate::ipc::vacant()(#[trigger] row[m]) by {
        assert(row[m] == k.ipc.senders[8 * e + m]);
    }
    seqs::lemma_first_where_is(row, crate::ipc::vacant(), s - 8 * e);
    seqs::lemma_first_where(row, crate::ipc::sent_by(snap.sender_tid));
    if seqs::any_where(row, crate::ipc::sent_by(snap.sender_tid)) {
        let m = seqs::first_where(row, crate::ipc::sent_by(snap.sender_tid));
        assert(k.ipc.senders[8 * e + m] is Some);
    }
}

/// A send is refused, with nothing changed, when its processor is not the current one, when its
/// sender is not current there, is blocked already or is another incarnation, when the endpoint is
/// gone or another one by now, and when all its places are taken or one is the sender's.
pub proof fn law_send_is_refused(k: Kernel, snap: BlockingSendCommitSnapshot)
    requires
        ({
            let e = snap.endpoint_idx as int;
            let c = snap.cpu.0 as int;
            ||| k.sched.current_cpu != snap.cpu
            ||| c >= k.sched.cpus.len()
            ||| k.sched.cpus[c].current != Some(snap.sender_tid)
            ||| forall|i: int|
                0 <= i < k.tasks.tcbs.len() && (#[trigger] k.tasks.tcbs[i]) is Some
                    && k.tasks.tcbs[i]->0.tid.0 == snap.sender_tid && k.tasks.tcbs[i]->0.asid
                    == Some(snap.sender_asid) ==> k.tasks.tcbs[i]->0.status is Blocked
            ||| e >= k.ipc.endpoints.len()
            ||| k.ipc.endpoints[e].mode is None
            ||| k.ipc.endpoints[e].generation != snap.endpoint_generation
            ||| forall|m: int|
                8 * e <= m < 8 * e + 8 && m < k.ipc.senders.len() ==> (
                #[trigger] k.ipc.senders[m]) is Some
            ||| exists|m: int|
                8 * e <= m < 8 * e + 8 && m < k.ipc.senders.len() && (
                #[trigger] k.ipc.senders[m]) is Some && k.ipc.senders[m]->0.tid.0
                    == snap.sender_tid
        }),
    ensures
        !(k.send_commit_result(snap) is Committed),
        k.after_send_commit(snap) == k,
{
    let e = snap.endpoint_idx as int;
    let row = k.ipc.row(e);
    let mine = crate::ipc::sent_by(snap.sender_tid);
    lemma_row(k, e, snap.sender_tid);
    seqs::lemma_first_where(
        k.tasks.tcbs,
        crate::task::is_incarnation(snap.sender_tid, Some(snap.sender_asid)),
    );
    seqs::lemma_first_where(row, crate::ipc::vacant());
    seqs::lemma_first_where(row, mine);
    if seqs::any_where(row, crate::ipc::vacant()) {
        let m = seqs::first_where(row, crate::ipc::vacant());
        assert(k.ipc.senders[8 * e + m] is None);
    }
    if exists|m: int|
        8 * e <= m < 8 * e + 8 && m < k.ipc.senders.len() && (#[trigger] k.ipc.senders[m]) is Some
            && k.ipc.senders[m]->0.tid.0 == snap.sender_tid {
        let m = choose|m: int|
            8 * e <= m < 8 * e + 8 && m < k.ipc.senders.len() && (
            #[trigger] k.ipc.senders[m]) is Some && k.ipc.senders[m]->0.tid.0 == snap.sender_tid;
        assert(mine(row[m - 8 * e]));
    }
}

/// A dispatch step on the current processor, and the mark of what it selected.  A runnable user
/// task that was dequeued runs behind it; nothing else changes with the mark.
pub proof fn law_dispatch_and_mark(k: Kernel, cpu: CpuId, j: int, i: int)
    requires
        k.tasks.apart(),
        k.sched.current_cpu == cpu,
        crate::laws::placing::is_free(k.sched, cpu),
        crate::laws::placing::is_next(k.sched, cpu, j),
        0 <= i < k.tasks.tcbs.len(),
        k.tasks.tcbs[i] is Some,
        k.tasks.tcbs[i]->0.tid.0 == k.sched.queue[j].tid,
        k.tasks.tcbs[i]->0.tid.0 != 0,
        k.tasks.tcbs[i]->0.asid is Some,
        k.tasks.tcbs[i]->0.status == TaskStatus::Runnable,
    ensures
        ({
            let dispatch = CpuDispatch::Selected {
                cpu,
                selection: DispatchSelection::Dequeued { tid: k.sched.queue[j].tid },
            };
            let stepped = k.after_step(cpu);
            &&& k.step_result(cpu) == dispatch
            &&& stepped == (Kernel {
                sched: crate::laws::placing::running_entry(k.sched, cpu, j),
                ..k
            })
            &&& stepped.mark_result(dispatch) matches DispatchMarkOutcome::Marked(token)
                && token.spec_tid() == k.sched.queue[j].tid && token.spec_cpu() == cpu
            &&& stepped.after_mark(dispatch) == (Kernel {
                tasks: Tasks {
                    tcbs: k.tasks.tcbs.update(
                        i,
                        Some(
                            ThreadControlBlock {
                                status: TaskStatus::Running,
                                ..k.tasks.tcbs[i]->0
                            },
                        ),
                    ),
                    ..k.tasks
                },
                ..stepped
            })
        }),
{
    crate::laws::slots::law_task_is_found_where_it_stands(k.tasks, i);
    crate::laws::placing::law_dispatch_runs_the_next(k.sched, cpu, j);
}

/// A task that was dequeued and cannot run goes back to the end of the queue of its processor, with
/// its priority, and the processor is free again.
pub proof fn law_unfit_selection_goes_back(k: Kernel, cpu: CpuId, j: int, i: int)
    requires
        k.tasks.apart(),
        k.sched.current_cpu == cpu,
        crate::laws::placing::is_free(k.sched, cpu),
        crate::laws::placing::is_next(k.sched, cpu, j),
        crate::laws::waking::places_for(k.sched.queue, cpu).len() <= crate::scheduler::MAX_RUN_QUEUE,
        0 <= i < k.tasks.tcbs.len(),
        k.tasks.tcbs[i] is Some,
        k.tasks.tcbs[i]->0.tid.0 == k.sched.queue[j].tid,
        k.tasks.tcbs[i]->0.tid.0 != 0,
        k.tasks.tcbs[i]->0.status != TaskStatus::Runnable,
    ensures
        ({
            let dispatch = k.step_result(cpu);
            let stepped = k.after_step(cpu);
            let back = stepped.after_mark(dispatch);
            &&& stepped.mark_result(dispatch) == DispatchMarkOutcome::RefusedRolledBack
            &&& back.tasks == k.tasks
            &&& back.sched.queue == k.sched.queue.remove(j).push(k.sched.queue[j])
            &&& back.sched.cpus[cpu.0 as int].current is None
        }),
{
    crate::laws::slots::law_task_is_found_where_it_stands(k.tasks, i);
    crate::laws::placing::law_dispatch_runs_the_next(k.sched, cpu, j);
    let stepped = k.after_step(cpu);
    crate::laws::waking::law_runnable_counts_entries(k.sched, cpu);
    seqs::lemma_count_remove(k.sched.queue, j, crate::scheduler::waits_on(cpu));
    assert(stepped.sched.queue == k.sched.queue.remove(j));
    assert(stepped.sched.can_reenqueue(cpu));
    assert(k.sched.queue[j] == RunEntry {
        cpu,
        tid: k.sched.queue[j].tid,
        priority: k.sched.queue[j].priority,
    });
}

} // verus!
