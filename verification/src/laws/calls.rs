//! How a call that waits for its reply is ended, said of its record, its deadline and its caller.
use vstd::prelude::*;

use crate::deferred::{Pending, ReplyTimeoutPostWork, ServerDeathPostWork};
use crate::ids::CpuId;
use crate::ipc::{
    DeadlineToken, EndpointSlot, Ipc, ReplyCapRecord, ReplyRecordReservation, ReplySlot,
    TerminalCell, TerminalOwner, TokenState,
};
use crate::kernel::Kernel;
use crate::runtime::timeouts::{Clocks, ReplyTimeoutOutcome};
use crate::scheduler::{RunEntry, Sched};
use crate::seqs;
use crate::task::{
    BlockedSyscallClass, BlockedSyscallCompletion, DeadlineHandle, TaskStatus, Tasks,
    TerminalIdentity, ThreadControlBlock, WaitReason,
};

verus! {

/// Is `handle` the registration in its place, armed?
pub open spec fn is_armed(k: Kernel, handle: DeadlineHandle) -> bool {
    let t = handle.identity.token_index as int;
    &&& t < k.ipc.tokens.len()
    &&& k.ipc.tokens[t].identity == handle.identity
    &&& k.ipc.tokens[t].epoch == handle.epoch
    &&& k.ipc.tokens[t].state == TokenState::Armed
}

/// Is the call open: its record is there, of this generation, and nobody has ended it?
pub open spec fn is_open_call(k: Kernel, identity: TerminalIdentity) -> bool {
    let r = identity.reply_record_index as int;
    &&& r < k.ipc.replies.len()
    &&& k.ipc.replies[r].generation == identity.reply_record_generation
    &&& k.ipc.replies[r].terminal.epoch != 0
    &&& k.ipc.replies[r].terminal.identity == identity
    &&& k.ipc.replies[r].terminal.owner == TerminalOwner::Unclaimed
}

/// Does the task in slot `i` wait for the answer to this call, at the endpoint of the call?
pub open spec fn is_waiting_caller(k: Kernel, identity: TerminalIdentity, i: int) -> bool {
    let e = identity.endpoint_index as int;
    &&& 0 <= i < k.tasks.tcbs.len()
    &&& k.tasks.tcbs[i] is Some
    &&& k.tasks.tcbs[i]->0.tid == identity.caller_tid
    &&& k.tasks.tcbs[i]->0.asid == Some(identity.caller_asid)
    &&& k.tasks.tcbs[i]->0.status matches TaskStatus::Blocked(WaitReason::EndpointReceive(_))
    &&& e < k.ipc.endpoints.len()
    &&& k.ipc.endpoints[e].generation == identity.endpoint_generation
    &&& k.ipc.endpoints[e].waiter is Some
    &&& k.ipc.endpoints[e].waiter->0.receiver.tid == identity.caller_tid
    &&& k.ipc.endpoints[e].waiter->0.receiver.asid == identity.caller_asid
}

/// The record of a call that `owner` ended: it is used up.
pub open spec fn ended_record(slot: ReplySlot, owner: TerminalOwner) -> ReplySlot {
    ReplySlot {
        record: match slot.record {
            Some(record) => Some(
                ReplyCapRecord { reservation: ReplyRecordReservation::Consumed, ..record },
            ),
            None => None,
        },
        terminal: TerminalCell { owner, ..slot.terminal },
        generation: slot.generation,
    }
}

/// The caller behind a call that ended with `result`.
pub open spec fn told_caller(tcb: ThreadControlBlock, result: u64, fired: bool) -> ThreadControlBlock {
    ThreadControlBlock {
        status: TaskStatus::Runnable,
        ipc_timeout_deadline: None,
        ipc_timeout_fired: fired,
        reply_timeout_token: None,
        pending_syscall_completion: Some(
            BlockedSyscallCompletion {
                syscall_class: BlockedSyscallClass::IpcRecv,
                result,
                tid: tcb.tid.0,
                asid: tcb.asid->0,
                blocked_generation: tcb.blocked_recv_generation,
            },
        ),
        ..tcb
    }
}

/// The run queue behind the wake of a task whose wait ended: an entry more at its home, or where
/// the least work waits, exactly if it may join there.
pub open spec fn woken_queue(s: Sched, tcb: ThreadControlBlock) -> Sched {
    let home = match tcb.cpu_affinity {
        Some(home) => Some(home),
        None => s.balanced_cpu(),
    };
    if home is Some && crate::laws::waking::may_join(s, home->0, tcb.tid.0) {
        Sched {
            queue: s.queue.push(
                RunEntry {
                    cpu: home->0,
                    tid: tcb.tid.0,
                    priority: crate::laws::waking::class_priority(tcb.class),
                },
            ),
            ..s
        }
    } else {
        s
    }
}

proof fn lemma_timeout_woken(k: Kernel, i: int)
    requires
        k.tasks.apart(),
        0 <= i < k.tasks.tcbs.len(),
        k.tasks.tcbs[i] is Some,
    ensures
        k.timeout_woken(k.tasks.tcbs[i]->0.tid.0) == (Kernel {
            sched: woken_queue(k.sched, k.tasks.tcbs[i]->0),
            ..k
        }),
{
    let tcb = k.tasks.tcbs[i]->0;
    crate::laws::slots::law_task_is_found_where_it_stands(k.tasks, i);
    let priority = k.tasks.wake_priority(tcb.tid.0);
    match tcb.cpu_affinity {
        Some(home) => {
            crate::laws::waking::law_enqueue_is_exact(k.sched, home, tcb.tid.0, priority);
        },
        None => {
            if let Some(home) = k.sched.balanced_cpu() {
                crate::laws::waking::law_enqueue_is_exact(k.sched, home, tcb.tid.0, priority);
            }
        },
    }
}

/// An armed deadline that is due ends an open call whose caller waits: the registration is spent,
/// the call is owned by the timeout and its record used up, the caller waits no more at the
/// endpoint, is runnable with the timeout as its answer, and is queued where it may join.  Nothing
/// else changes.
pub proof fn law_due_call_times_out(k: Kernel, handle: DeadlineHandle, now: u64, i: int)
    requires
        k.tasks.apart(),
        is_armed(k, handle),
        k.ipc.tokens[handle.identity.token_index as int].deadline <= now,
        is_open_call(k, handle.identity.terminal_identity),
        is_waiting_caller(k, handle.identity.terminal_identity, i),
    ensures
        ({
            let identity = handle.identity.terminal_identity;
            let t = handle.identity.token_index as int;
            let r = identity.reply_record_index as int;
            let e = identity.endpoint_index as int;
            &&& k.reply_fire_result(handle, now) == ReplyTimeoutOutcome::Woken
            &&& k.after_reply_fire(handle, now) == (Kernel {
                ipc: Ipc {
                    tokens: k.ipc.tokens.update(
                        t,
                        DeadlineToken { state: TokenState::Completed, ..k.ipc.tokens[t] },
                    ),
                    replies: k.ipc.replies.update(
                        r,
                        ended_record(k.ipc.replies[r], TerminalOwner::Timeout),
                    ),
                    endpoints: k.ipc.endpoints.update(
                        e,
                        EndpointSlot { waiter: None, ..k.ipc.endpoints[e] },
                    ),
                    ..k.ipc
                },
                tasks: Tasks {
                    tcbs: k.tasks.tcbs.update(
                        i,
                        Some(told_caller(k.tasks.tcbs[i]->0, 9, true)),
                    ),
                    ..k.tasks
                },
                sched: woken_queue(k.sched, k.tasks.tcbs[i]->0),
                ..k
            })
        }),
{
    let identity = handle.identity.terminal_identity;
    crate::laws::slots::law_task_is_found_where_it_stands(k.tasks, i);
    let told = told_caller(k.tasks.tcbs[i]->0, 9, true);
    crate::laws::slots::lemma_with_keeps_apart(k.tasks, i, told);
    let mid = Kernel {
        ipc: k.ipc.with_token_state(
            handle.identity.token_index as int,
            TokenState::Completed,
        ).call_ended(identity, TerminalOwner::Timeout).with_waiter(
            identity.endpoint_index as int,
            None,
        ),
        tasks: k.tasks.with(i, told),
        ..k
    };
    assert(mid.tasks.tcbs[i] == Some(told));
    lemma_timeout_woken(mid, i);
    assert(woken_queue(k.sched, told) == woken_queue(k.sched, k.tasks.tcbs[i]->0));
    assert(k.after_reply_fire(handle, now) == mid.timeout_woken(identity.caller_tid.0));
}

/// A deadline that is not armed under this handle, or not due, does nothing.  One that finds its
/// call ended by another only disarms itself.  One whose caller does not wait ends the call and
/// wakes nobody.
pub proof fn law_call_that_does_not_time_out(k: Kernel, handle: DeadlineHandle, now: u64)
    ensures
        ({
            let identity = handle.identity.terminal_identity;
            let t = handle.identity.token_index as int;
            let r = identity.reply_record_index as int;
            let due = is_armed(k, handle) && k.ipc.tokens[t].deadline <= now;
            let open = is_open_call(k, identity);
            &&& !due ==> k.reply_fire_result(handle, now) == ReplyTimeoutOutcome::StaleToken
                && k.after_reply_fire(handle, now) == k
            &&& due && !open ==> k.reply_fire_result(handle, now)
                == ReplyTimeoutOutcome::LostToTerminal && k.after_reply_fire(handle, now) == (
            Kernel {
                ipc: Ipc {
                    tokens: k.ipc.tokens.update(
                        t,
                        DeadlineToken { state: TokenState::Disarmed, ..k.ipc.tokens[t] },
                    ),
                    ..k.ipc
                },
                ..k
            })
            &&& k.tasks.apart() && due && open && (forall|i: int|
                !is_waiting_caller(k, identity, i)) ==> k.reply_fire_result(handle, now)
                == ReplyTimeoutOutcome::CleanupNoWake && k.after_reply_fire(handle, now) == (
            Kernel {
                ipc: Ipc {
                    tokens: k.ipc.tokens.update(
                        t,
                        DeadlineToken { state: TokenState::Completed, ..k.ipc.tokens[t] },
                    ),
                    replies: k.ipc.replies.update(
                        r,
                        ended_record(k.ipc.replies[r], TerminalOwner::Timeout),
                    ),
                    ..k.ipc
                },
                ..k
            })
        }),
{
    let identity = handle.identity.terminal_identity;
    if k.tasks.apart() && k.caller_waits(identity) {
        crate::laws::slots::lemma_exact_is_found(
            k.tasks,
            identity.caller_tid.0,
            Some(identity.caller_asid),
        );
        let i = k.tasks.exact_slot(identity.caller_tid.0, Some(identity.caller_asid));
        assert(is_waiting_caller(k, identity, i));
    }
}

/// The death of the server that owes the reply ends an open call whose caller waits: the call is
/// owned by the death and its record used up, a deadline of the caller that can still be disarmed
/// is, and the caller is runnable with the death as its answer and queued where it may join.
pub proof fn law_dead_server_ends_the_call(k: Kernel, work: ServerDeathPostWork, i: int)
    requires
        k.tasks.apart(),
        work.reply_record_index < k.ipc.replies.len(),
        ({
            let identity = k.ipc.replies[work.reply_record_index as int].terminal.identity;
            &&& is_open_call(k, identity)
            &&& identity.reply_record_index == work.reply_record_index
            &&& identity.reply_record_generation == work.reply_record_generation
            &&& identity.replier_tid == work.exiting_server.tid
            &&& identity.replier_asid == work.exiting_server.asid
            &&& is_waiting_caller(k, identity, i)
        }),
    ensures
        ({
            let r = work.reply_record_index as int;
            let identity = k.ipc.replies[r].terminal.identity;
            let e = identity.endpoint_index as int;
            let after = k.death_settled(work);
            let before = k.tasks.tcbs[i]->0;
            &&& after.tasks.tcbs == k.tasks.tcbs.update(i, Some(told_caller(before, 10, false)))
            &&& after.sched == woken_queue(k.sched, before)
            &&& after.ipc.replies == k.ipc.replies.update(
                r,
                ended_record(k.ipc.replies[r], TerminalOwner::PeerDeath),
            )
            &&& after.ipc.endpoints == k.ipc.endpoints.update(
                e,
                EndpointSlot { waiter: None, ..k.ipc.endpoints[e] },
            )
            &&& before.reply_timeout_token is None ==> after.ipc.tokens == k.ipc.tokens
            &&& before.reply_timeout_token is Some && is_armed(k, before.reply_timeout_token->0)
                ==> after.ipc.tokens == k.ipc.tokens.update(
                before.reply_timeout_token->0.identity.token_index as int,
                DeadlineToken {
                    state: TokenState::Disarmed,
                    ..k.ipc.tokens[before.reply_timeout_token->0.identity.token_index as int]
                },
            )
        }),
{
    let r = work.reply_record_index as int;
    let identity = k.ipc.replies[r].terminal.identity;
    let before = k.tasks.tcbs[i]->0;
    crate::laws::slots::law_task_is_found_where_it_stands(k.tasks, i);
    let told = told_caller(before, 10, false);
    crate::laws::slots::lemma_with_keeps_apart(k.tasks, i, told);
    let ended = k.ipc.call_ended(identity, TerminalOwner::PeerDeath);
    let disarmed = match before.reply_timeout_token {
        Some(handle) => ended.disarmed(handle),
        None => ended,
    };
    let mid = Kernel {
        ipc: disarmed.with_waiter(identity.endpoint_index as int, None),
        tasks: k.tasks.with(i, told),
        ..k
    };
    assert(mid.tasks.tcbs[i] == Some(told));
    lemma_timeout_woken(mid, i);
    assert(woken_queue(k.sched, told) == woken_queue(k.sched, before));
    assert(k.death_settled(work) == mid.timeout_woken(identity.caller_tid.0));
}

/// The death of another server, or of an earlier incarnation, and one that finds the call ended,
/// change nothing.
pub proof fn law_other_death_changes_nothing(k: Kernel, work: ServerDeathPostWork)
    requires
        ({
            let r = work.reply_record_index as int;
            let identity = k.ipc.replies[r].terminal.identity;
            ||| r >= k.ipc.replies.len()
            ||| k.ipc.replies[r].generation != work.reply_record_generation
            ||| identity.replier_tid != work.exiting_server.tid
            ||| identity.replier_asid != work.exiting_server.asid
            ||| !is_open_call(k, identity)
        }),
    ensures
        k.death_settled(work) == k,
{
}

/// Settling calls on a processor takes the oldest listed one: if its own clock has not reached its
/// deadline, nothing is settled and no listed work is lost.
pub proof fn law_early_call_stays_listed(
    k: Kernel,
    cpu: CpuId,
    clocks: Clocks,
    n: nat,
    work: ReplyTimeoutPostWork,
)
    requires
        n > 0,
        crate::deferred::oldest(k.pending.reply, cpu) == Some(work),
        crate::laws::scanning::own_clock(clocks, work.clock) < work.deadline,
    ensures
        k.replies_settled(cpu, clocks, n) == (Kernel {
            pending: Pending {
                reply: k.replies_settled(cpu, clocks, n).pending.reply,
                ..k.pending
            },
            ..k
        }),
        crate::deferred::has_room(
            crate::deferred::oldest_taken(k.pending.reply, cpu),
            cpu,
            crate::deferred::RT_POST_WORK_SLOTS,
        ) ==> exists|m: int|
            0 <= m < k.replies_settled(cpu, clocks, n).pending.reply.len()
                && (#[trigger] k.replies_settled(cpu, clocks, n).pending.reply[m]).cpu == cpu
                && k.replies_settled(cpu, clocks, n).pending.reply[m].item.handle == work.handle,
{
    let items = crate::deferred::oldest_taken(k.pending.reply, cpu);
    let p = crate::runtime::timeouts::same_deadline(cpu, work.handle);
    let after = k.replies_settled(cpu, clocks, n).pending.reply;
    seqs::lemma_first_where(items, p);
    if seqs::any_where(items, p) {
        let m = seqs::first_where(items, p);
        assert(p(after[m]));
    } else if crate::deferred::has_room(items, cpu, crate::deferred::RT_POST_WORK_SLOTS) {
        let m = items.len() as int;
        assert(after[m].item == work);
    }
}

} // verus!
