//! What a deadline that passed leaves behind.
use vstd::prelude::*;

use crate::capability::CapObject;
use crate::deferred::{
    CpuItem, RecvTimeoutPostWork, ReplyTimeoutPostWork, SendTimeoutPostWork,
};
use crate::ids::{Asid, CpuId};
use crate::ipc::{
    DeadlineToken, EnvelopeSlot, Ipc, ReceiverWaiterIdentity, TokenState, TransferState,
};
use crate::kernel::Kernel;
use crate::seqs;
use crate::task::{
    BlockedSyscallClass, BlockedSyscallCompletion, DeadlineHandle, TaskStatus, Tasks,
    ThreadControlBlock, WaitReason,
};

verus! {

/// Is the task in slot `i` blocked in exactly the send that `work` names, with that deadline, and
/// has the deadline passed?
pub open spec fn send_ran_out(k: Kernel, work: SendTimeoutPostWork, now: u64, i: int) -> bool {
    &&& 0 <= i < k.tasks.tcbs.len()
    &&& k.tasks.tcbs[i] is Some
    &&& k.tasks.tcbs[i]->0.tid.0 == work.tid
    &&& k.tasks.tcbs[i]->0.asid == work.asid
    &&& k.tasks.tcbs[i]->0.blocked_send_generation == work.send_generation
    &&& k.tasks.tcbs[i]->0.status matches TaskStatus::Blocked(WaitReason::EndpointSend(_))
    &&& k.tasks.tcbs[i]->0.ipc_timeout_deadline == Some(work.deadline)
    &&& work.deadline <= now
}

/// The task behind a send that ran out: runnable, with its deadline fired, and told so.
pub open spec fn told_send_ran_out(tcb: ThreadControlBlock) -> ThreadControlBlock {
    ThreadControlBlock {
        status: TaskStatus::Runnable,
        ipc_timeout_deadline: None,
        ipc_timeout_fired: true,
        pending_syscall_completion: if tcb.asid is Some {
            Some(
                BlockedSyscallCompletion {
                    syscall_class: BlockedSyscallClass::IpcSend,
                    result: 9,
                    tid: tcb.tid.0,
                    asid: tcb.asid->0,
                    blocked_generation: tcb.blocked_send_generation,
                },
            )
        } else {
            tcb.pending_syscall_completion
        },
        ..tcb
    }
}

/// Is place `s` a waiting place of this very send?
pub open spec fn is_place_of(ipc: Ipc, work: SendTimeoutPostWork, s: int) -> bool {
    &&& 0 <= s < ipc.senders.len()
    &&& ipc.senders[s] matches Some(w) && w.tid.0 == work.tid && w.send_generation
        == work.send_generation
}

proof fn lemma_owed(ipc: Ipc, work: SendTimeoutPostWork, n: int, s: int)
    requires
        0 <= n <= ipc.senders.len(),
        forall|j: int| 0 <= j < n && #[trigger] is_place_of(ipc, work, j) ==> j == s,
    ensures
        ipc.owed_by(work.tid, work.send_generation, n) == if 0 <= s < n && is_place_of(
            ipc,
            work,
            s,
        ) {
            ipc.owed_at(s)
        } else {
            None
        },
    decreases n,
{
    if n > 0 {
        lemma_owed(ipc, work, n - 1, s);
        assert(crate::runtime::timeouts::sends_as(work.tid, work.send_generation)(
            ipc.senders[n - 1],
        ) == is_place_of(ipc, work, n - 1));
    }
}

/// A send that ran out: its sender is runnable and told so, it waits at no endpoint any more, and
/// it is queued on its home or, without one, where the least work waits.  Its message took no
/// capability along.
pub proof fn law_send_runs_out(k: Kernel, work: SendTimeoutPostWork, now: u64, i: int, s: int)
    requires
        k.tasks.apart(),
        send_ran_out(k, work, now, i),
        forall|j: int|
            0 <= j < k.ipc.senders.len() && #[trigger] is_place_of(k.ipc, work, j) ==> j == s,
        is_place_of(k.ipc, work, s) ==> k.ipc.senders[s]->0.msg.transfer == u64::MAX,
    ensures
        ({
            let tcb = k.tasks.tcbs[i]->0;
            let after = k.send_settled(work, now);
            let priority = crate::laws::waking::class_priority(tcb.class);
            &&& after.tasks == (Tasks {
                tcbs: k.tasks.tcbs.update(i, Some(told_send_ran_out(tcb))),
                ..k.tasks
            })
            &&& after.ipc.senders.len() == k.ipc.senders.len()
            &&& forall|j: int|
                0 <= j < k.ipc.senders.len() ==> #[trigger] after.ipc.senders[j] == (if j == s
                    && is_place_of(k.ipc, work, s) {
                    None
                } else {
                    k.ipc.senders[j]
                })
            &&& after.ipc == (Ipc { senders: after.ipc.senders, ..k.ipc })
            &&& after.sched == match tcb.cpu_affinity {
                Some(home) => k.sched.enqueued(home, tcb.tid.0, priority),
                None => k.sched.enqueued_balanced(tcb.tid.0, priority),
            }
            &&& after == (Kernel { tasks: after.tasks, ipc: after.ipc, sched: after.sched, ..k })
        }),
{
    let tcb = k.tasks.tcbs[i]->0;
    let told = told_send_ran_out(tcb);
    crate::laws::slots::law_task_is_found_where_it_stands(k.tasks, i);
    lemma_owed(k.ipc, work, k.ipc.senders.len() as int, s);
    crate::laws::slots::lemma_with_keeps_apart(k.tasks, i, told);
    crate::laws::slots::law_task_is_found_where_it_stands(k.tasks.with(i, told), i);
    let sent = k.ipc.sends_withdrawn(work.tid, work.send_generation);
    assert forall|j: int| 0 <= j < k.ipc.senders.len() implies #[trigger] sent.senders[j] == (
    if j == s && is_place_of(k.ipc, work, s) {
        None
    } else {
        k.ipc.senders[j]
    }) by {
        assert(crate::runtime::timeouts::sends_as(work.tid, work.send_generation)(
            k.ipc.senders[j],
        ) == is_place_of(k.ipc, work, j));
    }
}

/// A send that ran out takes its capability back: the envelope that its message stashed at the
/// endpoint is gone, and the memory behind a region is pinned once less.
pub proof fn law_send_that_ran_out_takes_its_envelope_back(
    k: Kernel,
    work: SendTimeoutPostWork,
    now: u64,
    i: int,
    s: int,
    v: int,
)
    requires
        k.tasks.apart(),
        send_ran_out(k, work, now, i),
        is_place_of(k.ipc, work, s),
        forall|j: int|
            0 <= j < k.ipc.senders.len() && #[trigger] is_place_of(k.ipc, work, j) ==> j == s,
        k.ipc.senders[s]->0.msg.transfer != u64::MAX,
        crate::laws::granting::names_envelope(k.ipc, k.ipc.senders[s]->0.msg.transfer, v),
        k.ipc.envelopes[v].envelope is Some,
        k.ipc.envelopes[v].envelope->0.state == TransferState::Stashed,
        k.ipc.envelopes[v].envelope->0.endpoint is Endpoint,
        k.ipc.envelopes[v].envelope->0.endpoint->Endpoint_index == s / 8,
    ensures
        ({
            let env = k.ipc.envelopes[v].envelope->0;
            let after = k.send_settled(work, now);
            &&& after.ipc.envelopes == k.ipc.envelopes.update(
                v,
                EnvelopeSlot { envelope: None, ..k.ipc.envelopes[v] },
            )
            &&& after.ipc.senders[s] is None
            &&& after.mem == match (env.shared_region, env.source_object) {
                (Some(_), CapObject::MemoryObject { id }) => k.mem.pin_noted(id, false),
                (Some(_), CapObject::DmaRegion { id }) => k.mem.pin_noted(id, false),
                _ => k.mem,
            }
            &&& after.caps == k.caps
        }),
{
    let handle = k.ipc.senders[s]->0.msg.transfer;
    let env = k.ipc.envelopes[v].envelope->0;
    let receiver = match env.receiver_tid {
        Some(receiver) => receiver,
        None => k.ipc.senders[s]->0.tid,
    };
    crate::laws::slots::law_task_is_found_where_it_stands(k.tasks, i);
    lemma_owed(k.ipc, work, k.ipc.senders.len() as int, s);
    let sent = k.ipc.sends_withdrawn(work.tid, work.send_generation);
    crate::laws::granting::law_envelope_is_taken_by_its_receiver(
        k.ipc,
        handle,
        s / 8,
        receiver,
        v,
    );
    assert(sent.envelopes == k.ipc.envelopes);
    assert(crate::laws::granting::names_envelope(sent, handle, v));
    crate::laws::granting::law_envelope_is_taken_by_its_receiver(
        sent,
        handle,
        s / 8,
        receiver,
        v,
    );
    assert(crate::runtime::timeouts::sends_as(work.tid, work.send_generation)(k.ipc.senders[s]));
}

/// A send that is over by now, or is not due, is left alone.
pub proof fn law_send_that_did_not_run_out(k: Kernel, work: SendTimeoutPostWork, now: u64)
    requires
        k.tasks.apart(),
        forall|i: int| !send_ran_out(k, work, now, i),
    ensures
        k.send_settled(work, now) == k,
{
    if k.send_claimable(work, now) {
        crate::laws::slots::lemma_exact_is_found(k.tasks, work.tid, work.asid);
        assert(send_ran_out(k, work, now, k.tasks.exact_slot(work.tid, work.asid)));
    }
}

/// Is the task in slot `i` blocked in exactly the receive that `work` names, for no reply, with
/// that deadline, and has the deadline passed?
pub open spec fn recv_ran_out(k: Kernel, work: RecvTimeoutPostWork, now: u64, i: int) -> bool {
    &&& 0 <= i < k.tasks.tcbs.len()
    &&& k.tasks.tcbs[i] is Some
    &&& k.tasks.tcbs[i]->0.tid.0 == work.tid
    &&& k.tasks.tcbs[i]->0.asid == work.asid
    &&& k.tasks.tcbs[i]->0.blocked_recv_generation == work.wait_generation
    &&& k.tasks.tcbs[i]->0.status matches TaskStatus::Blocked(WaitReason::EndpointReceive(_))
    &&& k.tasks.tcbs[i]->0.reply_timeout_token is None
    &&& k.tasks.tcbs[i]->0.ipc_timeout_deadline == Some(work.deadline)
    &&& work.deadline <= now
}

/// A receive that ran out: its receiver is runnable with its deadline fired, waits nowhere, and is
/// queued on its home or, without one, where the least work waits.
pub proof fn law_receive_runs_out(k: Kernel, work: RecvTimeoutPostWork, now: u64, i: int)
    requires
        k.tasks.apart(),
        recv_ran_out(k, work, now, i),
    ensures
        ({
            let tcb = k.tasks.tcbs[i]->0;
            let priority = crate::laws::waking::class_priority(tcb.class);
            k.recv_settled(work, now) == (Kernel {
                tasks: Tasks {
                    tcbs: k.tasks.tcbs.update(
                        i,
                        Some(
                            ThreadControlBlock {
                                status: TaskStatus::Runnable,
                                ipc_timeout_deadline: None,
                                ipc_timeout_fired: true,
                                ..tcb
                            },
                        ),
                    ),
                    ..k.tasks
                },
                ipc: k.ipc.waits_cleared(
                    ReceiverWaiterIdentity {
                        tid: tcb.tid,
                        asid: match tcb.asid {
                            Some(asid) => asid,
                            None => Asid(0),
                        },
                    },
                ),
                sched: match tcb.cpu_affinity {
                    Some(home) => k.sched.enqueued(home, tcb.tid.0, priority),
                    None => k.sched.enqueued_balanced(tcb.tid.0, priority),
                },
                ..k
            })
        }),
{
    let tcb = k.tasks.tcbs[i]->0;
    let told = ThreadControlBlock {
        status: TaskStatus::Runnable,
        ipc_timeout_deadline: None,
        ipc_timeout_fired: true,
        ..tcb
    };
    crate::laws::slots::law_task_is_found_where_it_stands(k.tasks, i);
    crate::laws::slots::lemma_with_keeps_apart(k.tasks, i, told);
    crate::laws::slots::law_task_is_found_where_it_stands(k.tasks.with(i, told), i);
}

/// A receive that is over by now, or is not due, is left alone.
pub proof fn law_receive_that_did_not_run_out(k: Kernel, work: RecvTimeoutPostWork, now: u64)
    requires
        k.tasks.apart(),
        forall|i: int| !recv_ran_out(k, work, now, i),
    ensures
        k.recv_settled(work, now) == k,
{
    if k.recv_claimable(work, now) {
        crate::laws::slots::lemma_exact_is_found(k.tasks, work.tid, work.asid);
        assert(recv_ran_out(k, work, now, k.tasks.exact_slot(work.tid, work.asid)));
    }
}

/// A due reply deadline is listed once for each processor and no more than sixteen at a time; it
/// goes behind those that are there.
pub proof fn law_due_reply_is_listed_once(
    items: Seq<CpuItem<ReplyTimeoutPostWork>>,
    cpu: CpuId,
    work: ReplyTimeoutPostWork,
)
    ensures
        crate::runtime::timeouts::reply_published(items, cpu, work) == if (exists|i: int|
            0 <= i < items.len() && (#[trigger] items[i]).cpu == cpu && items[i].item.handle
                == work.handle) || crate::laws::admitting::listed(items, cpu).len() >= 16 {
            items
        } else {
            items.push(CpuItem { cpu, item: work })
        },
{
    let p = crate::runtime::timeouts::same_deadline(cpu, work.handle);
    seqs::lemma_first_where(items, p);
    crate::laws::admitting::law_lists_are_first_in_first_out(items, cpu, work, 16, 0);
    if exists|i: int|
        0 <= i < items.len() && (#[trigger] items[i]).cpu == cpu && items[i].item.handle
            == work.handle {
        let i = choose|i: int|
            0 <= i < items.len() && (#[trigger] items[i]).cpu == cpu && items[i].item.handle
                == work.handle;
        assert(p(items[i]));
    }
    let f = seqs::first_where(items, p);
    if f < items.len() {
        assert(items[f].cpu == cpu && items[f].item.handle == work.handle);
    }
}

/// A deadline is disarmed exactly by a handle of its very registration, and only while it is armed
/// or claimed by a reply; nothing else changes.
pub proof fn law_deadline_is_disarmed(ipc: Ipc, handle: DeadlineHandle)
    ensures
        ({
            let i = handle.identity.token_index as int;
            let may = i < ipc.tokens.len() && ipc.tokens[i].identity == handle.identity
                && ipc.tokens[i].epoch == handle.epoch && (ipc.tokens[i].state == TokenState::Armed
                || ipc.tokens[i].state == TokenState::ClaimedByReply);
            &&& ipc.can_disarm(handle) == may
            &&& ipc.disarmed(handle) == if may {
                Ipc {
                    tokens: ipc.tokens.update(
                        i,
                        DeadlineToken { state: TokenState::Disarmed, ..ipc.tokens[i] },
                    ),
                    ..ipc
                }
            } else {
                ipc
            }
        }),
{
}

/// A caller forgets a deadline exactly when the deadline can never fire again and is still the one
/// it refers to; it then has no deadline at all.
pub proof fn law_spent_deadline_is_forgotten(k: Kernel, handle: DeadlineHandle, i: int)
    requires
        k.tasks.apart(),
        0 <= i < k.tasks.tcbs.len(),
        k.tasks.tcbs[i] is Some,
        k.tasks.tcbs[i]->0.tid == handle.identity.terminal_identity.caller_tid,
    ensures
        ({
            let tcb = k.tasks.tcbs[i]->0;
            let t = handle.identity.token_index as int;
            let spent = t < k.ipc.tokens.len() && (k.ipc.tokens[t].state == TokenState::Completed
                || k.ipc.tokens[t].state == TokenState::Disarmed);
            k.reply_ref_dropped(handle) == if spent && tcb.reply_timeout_token == Some(handle) {
                Kernel {
                    tasks: Tasks {
                        tcbs: k.tasks.tcbs.update(
                            i,
                            Some(
                                ThreadControlBlock {
                                    ipc_timeout_deadline: None,
                                    reply_timeout_token: None,
                                    ..tcb
                                },
                            ),
                        ),
                        ..k.tasks
                    },
                    ..k
                }
            } else {
                k
            }
        }),
{
    crate::laws::slots::law_task_is_found_where_it_stands(k.tasks, i);
}

} // verus!
