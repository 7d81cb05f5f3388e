//! Laws of deadlines: a call ends once, an expired wait is answered once, and a pass over due
//! deadlines leaves none of its processor's behind.
use vstd::prelude::*;

use crate::deferred::{
    CpuItem, Pending, RecvTimeoutPostWork, SendTimeoutPostWork, IPC_TIMEOUT_SCAN_WINDOW,
};
use crate::ids::{Asid, CpuId, ThreadId};
use crate::ipc::{Ipc, ReceiverWaiterIdentity, ReplyRecordReservation, TerminalOwner};
use crate::kernel::Kernel;
use crate::runtime::timeouts::{Clocks, ReplyTimeoutOutcome};
use crate::seqs;
use crate::task::{
    BlockedSyscallClass, DeadlineHandle, TaskStatus, Tasks, TerminalIdentity,
    SEND_COMPLETION_TIMED_OUT,
};

verus! {

/// A call that was ended is over: nothing can end it again, and its reply cannot be given.
pub proof fn law_call_ends_once(ipc: Ipc, identity: TerminalIdentity, owner: TerminalOwner)
    requires
        ipc.call_open(identity),
        !(owner is Unclaimed),
    ensures
        !ipc.call_ended(identity, owner).call_open(identity),
        !ipc.call_ended(identity, owner).record_is(
            identity.reply_record_index as int,
            identity.reply_record_generation,
            ReplyRecordReservation::Available,
        ),
        !ipc.call_ended(identity, owner).record_is(
            identity.reply_record_index as int,
            identity.reply_record_generation,
            ReplyRecordReservation::Reserved,
        ),
{
}

/// A reply deadline fires at most once: whatever came of it, it is not armed any more.
pub proof fn law_deadline_fires_once(k: Kernel, handle: DeadlineHandle, now: u64, later: u64)
    requires
        !(k.reply_fire_result(handle, now) is StaleToken),
    ensures
        k.after_reply_fire(handle, now).reply_fire_result(handle, later)
            == ReplyTimeoutOutcome::StaleToken,
        k.after_reply_fire(handle, now).after_reply_fire(handle, later) == k.after_reply_fire(
            handle,
            now,
        ),
{
    let i = handle.identity.token_index as int;
    let after = k.after_reply_fire(handle, now);
    assert(!(after.ipc.tokens[i].state is Armed));
}

/// A deadline that ended a call leaves the death of the server nothing to end, and the death of
/// the server leaves a deadline nothing to end.
pub proof fn law_one_party_ends_a_call(
    k: Kernel,
    handle: DeadlineHandle,
    now: u64,
    later: u64,
)
    ensures
        ({
            let identity = handle.identity.terminal_identity;
            let fired = k.after_reply_fire(handle, now);
            let died = k.death_completed(identity);
            &&& (k.reply_fire_result(handle, now) is Woken || k.reply_fire_result(
                handle,
                now,
            ) is CleanupNoWake) ==> fired.death_completed(identity) == fired
            &&& k.ipc.call_open(identity) ==> !(died.reply_fire_result(handle, later) is Woken)
                && !(died.reply_fire_result(handle, later) is CleanupNoWake)
        }),
{
    let identity = handle.identity.terminal_identity;
    let died = k.death_completed(identity);
    let i = identity.reply_record_index as int;
    if k.ipc.call_open(identity) {
        assert(!(died.ipc.replies[i].terminal.owner is Unclaimed));
    }
    if k.reply_fire_result(handle, now) is Woken || k.reply_fire_result(
        handle,
        now,
    ) is CleanupNoWake {
        let fired = k.after_reply_fire(handle, now);
        assert(!(fired.ipc.replies[i].terminal.owner is Unclaimed));
    }
}

/// A caller whose deadline ended its call is runnable, waits no more, and finds the timeout as
/// its answer.
pub proof fn law_expired_caller_is_answered(k: Kernel, handle: DeadlineHandle, now: u64)
    requires
        k.reply_fire_result(handle, now) is Woken,
    ensures
        ({
            let identity = handle.identity.terminal_identity;
            let after = k.after_reply_fire(handle, now);
            &&& after.tasks.exact(
                identity.caller_tid.0,
                Some(identity.caller_asid),
            ) matches Some(tcb) && tcb.status == TaskStatus::Runnable && tcb.ipc_timeout_fired
                && tcb.ipc_timeout_deadline is None && (crate::task::completion_out(
                tcb,
                BlockedSyscallClass::IpcRecv,
            ) matches Some(completion) && completion.result == SEND_COMPLETION_TIMED_OUT)
            &&& !after.ipc.waits_at(
                identity.endpoint_index as int,
                crate::runtime::timeouts::caller_of(identity),
            )
        }),
{
    let identity = handle.identity.terminal_identity;
    let tid = identity.caller_tid.0;
    let asid = Some(identity.caller_asid);
    let tcb = k.tasks.exact(tid, asid)->0;
    seqs::lemma_first_where(k.tasks.tcbs, crate::task::is_incarnation(tid, asid));
    crate::task::lemma_exact_replaced(
        k.tasks,
        tid,
        asid,
        crate::runtime::timeouts::answered_tcb(tcb, SEND_COMPLETION_TIMED_OUT, true),
    );
}

/// A send whose deadline passed is over: its sender is runnable, finds the timeout as its
/// answer, and waits nowhere under this block any more.  Other incarnations are not touched.
pub proof fn law_expired_send_is_answered(k: Kernel, work: SendTimeoutPostWork, now: u64)
    requires
        k.send_claimable(work, now),
        work.asid is Some,
    ensures
        k.send_settled(work, now).tasks.exact(work.tid, work.asid) matches Some(tcb) && tcb.status
            == TaskStatus::Runnable && tcb.ipc_timeout_fired && tcb.ipc_timeout_deadline is None
            && (crate::task::completion_out(tcb, BlockedSyscallClass::IpcSend) matches Some(
            completion,
        ) && completion.result == SEND_COMPLETION_TIMED_OUT),
        forall|i: int|
            0 <= i < k.send_settled(work, now).ipc.senders.len()
                ==> !crate::runtime::timeouts::sends_as(work.tid, work.send_generation)(
                #[trigger] k.send_settled(work, now).ipc.senders[i],
            ),
        !k.send_settled(work, now).send_claimable(work, now),
        forall|t: u64, a: Option<Asid>|
            (t != work.tid || a != work.asid) ==> #[trigger] k.send_settled(
                work,
                now,
            ).tasks.exact(t, a) == k.tasks.exact(t, a),
{
    let tcb = k.tasks.exact(work.tid, work.asid)->0;
    seqs::lemma_first_where(
        k.tasks.tcbs,
        crate::task::is_incarnation(work.tid, work.asid),
    );
    crate::task::lemma_exact_replaced(
        k.tasks,
        work.tid,
        work.asid,
        crate::runtime::timeouts::send_expired_tcb(tcb, work),
    );
}

/// A receive whose deadline passed is over: its receiver is runnable and waits at no endpoint.
pub proof fn law_expired_receive_waits_nowhere(k: Kernel, work: RecvTimeoutPostWork, now: u64)
    requires
        k.recv_claimable(work, now),
        work.asid is Some,
    ensures
        k.recv_settled(work, now).tasks.exact(work.tid, work.asid) matches Some(tcb) && tcb.status
            == TaskStatus::Runnable && tcb.ipc_timeout_fired && tcb.ipc_timeout_deadline is None,
        forall|e: int|
            !#[trigger] k.recv_settled(work, now).ipc.waits_at(
                e,
                ReceiverWaiterIdentity { tid: ThreadId(work.tid), asid: work.asid->0 },
            ),
        !k.recv_settled(work, now).recv_claimable(work, now),
        forall|t: u64, a: Option<Asid>|
            (t != work.tid || a != work.asid) ==> #[trigger] k.recv_settled(
                work,
                now,
            ).tasks.exact(t, a) == k.tasks.exact(t, a),
{
    let tcb = k.tasks.exact(work.tid, work.asid)->0;
    seqs::lemma_first_where(
        k.tasks.tcbs,
        crate::task::is_incarnation(work.tid, work.asid),
    );
    crate::task::lemma_exact_replaced(
        k.tasks,
        work.tid,
        work.asid,
        crate::runtime::timeouts::recv_expired_tcb(tcb),
    );
}

/// A deadline of an incarnation that is gone, of an older block, or of a wait that is over
/// changes nothing.
pub proof fn law_stale_deadline_is_inert(
    k: Kernel,
    send: SendTimeoutPostWork,
    recv: RecvTimeoutPostWork,
    now: u64,
)
    ensures
        !k.send_claimable(send, now) ==> k.send_settled(send, now) == k,
        !k.recv_claimable(recv, now) ==> k.recv_settled(recv, now) == k,
        k.tasks.exact(send.tid, send.asid) is None ==> !k.send_claimable(send, now),
        k.tasks.exact(recv.tid, recv.asid) is None ==> !k.recv_claimable(recv, now),
{
}

/// Taking the oldest item of a processor takes one of its items.
proof fn lemma_oldest_taken_counts<T>(items: Seq<CpuItem<T>>, cpu: CpuId)
    ensures
        crate::deferred::oldest(items, cpu) is Some ==> seqs::count_where(
            items,
            crate::deferred::listed_for::<T>(cpu),
        ) == seqs::count_where(
            crate::deferred::oldest_taken(items, cpu),
            crate::deferred::listed_for::<T>(cpu),
        ) + 1,
        crate::deferred::oldest(items, cpu) is None ==> seqs::count_where(
            items,
            crate::deferred::listed_for::<T>(cpu),
        ) == 0,
{
    let p = crate::deferred::listed_for::<T>(cpu);
    seqs::lemma_first_where(items, p);
    seqs::lemma_count_zero(items, p);
    let i = seqs::first_where(items, p);
    if i < items.len() {
        seqs::lemma_count_remove(items, i, p);
    }
}

/// A pass over due sends leaves none of its processor's behind.
pub proof fn law_send_pass_is_complete(k: Kernel, cpu: CpuId, now: u64, n: nat)
    requires
        n == k.sends_for(cpu),
    ensures
        k.sends_settled(cpu, now, n).sends_for(cpu) == 0,
    decreases n,
{
    lemma_oldest_taken_counts(k.pending.send, cpu);
    if n > 0 {
        if let Some(work) = crate::deferred::oldest(k.pending.send, cpu) {
            let taken = Kernel {
                pending: Pending {
                    send: crate::deferred::oldest_taken(k.pending.send, cpu),
                    ..k.pending
                },
                ..k
            };
            let next = taken.send_settled(work, now);
            assert(next.pending == taken.pending);
            law_send_pass_is_complete(next, cpu, now, (n - 1) as nat);
        }
    }
}

/// A pass over due receives leaves none of its processor's behind.
pub proof fn law_receive_pass_is_complete(k: Kernel, cpu: CpuId, now: u64, n: nat)
    requires
        n == k.recvs_for(cpu),
    ensures
        k.recvs_settled(cpu, now, n).recvs_for(cpu) == 0,
    decreases n,
{
    lemma_oldest_taken_counts(k.pending.recv, cpu);
    if n > 0 {
        if let Some(work) = crate::deferred::oldest(k.pending.recv, cpu) {
            let taken = Kernel {
                pending: Pending {
                    recv: crate::deferred::oldest_taken(k.pending.recv, cpu),
                    ..k.pending
                },
                ..k
            };
            let next = taken.recv_settled(work, now);
            assert(next.pending == taken.pending);
            law_receive_pass_is_complete(next, cpu, now, (n - 1) as nat);
        }
    }
}

/// A pass over dead servers leaves none of its processor's behind.
pub proof fn law_death_pass_is_complete(k: Kernel, cpu: CpuId, n: nat)
    requires
        n == k.deaths_for(cpu),
    ensures
        k.deaths_settled(cpu, n).deaths_for(cpu) == 0,
    decreases n,
{
    lemma_oldest_taken_counts(k.pending.death, cpu);
    if n > 0 {
        if let Some(work) = crate::deferred::oldest(k.pending.death, cpu) {
            let taken = Kernel {
                pending: Pending {
                    death: crate::deferred::oldest_taken(k.pending.death, cpu),
                    ..k.pending
                },
                ..k
            };
            let next = taken.death_settled(work);
            assert(next.pending == taken.pending);
            law_death_pass_is_complete(next, cpu, (n - 1) as nat);
        }
    }
}

/// A scan looks at a bounded number of tasks and lists only deadlines that are due, each on its
/// own clock.
pub proof fn law_scan_lists_only_what_is_due(tasks: Tasks, start: int, clocks: Clocks, n: int)
    requires
        0 <= n,
    ensures
        tasks.scan(start, clocks, n).examined <= IPC_TIMEOUT_SCAN_WINDOW,
        forall|i: int|
            0 <= i < tasks.scan(start, clocks, n).reply.len() ==> clocks.spec_reply_now(
                (#[trigger] tasks.scan(start, clocks, n).reply[i]).clock,
            ) >= tasks.scan(start, clocks, n).reply[i].deadline,
        forall|i: int|
            0 <= i < tasks.scan(start, clocks, n).send.len() ==> clocks.send_now >= (
            #[trigger] tasks.scan(start, clocks, n).send[i]).deadline,
        forall|i: int|
            0 <= i < tasks.scan(start, clocks, n).recv.len() ==> clocks.send_now >= (
            #[trigger] tasks.scan(start, clocks, n).recv[i]).deadline,
    decreases n,
{
    if n > 0 {
        law_scan_lists_only_what_is_due(tasks, start, clocks, n - 1);
    }
}

/// Looking for due deadlines decides nothing: it changes no more than the lists of what is due.
pub proof fn law_scan_decides_nothing(k: Kernel, cpu: CpuId, clocks: Clocks)
    ensures
        k.timeouts_collected(cpu, clocks) == (Kernel {
            pending: k.timeouts_collected(cpu, clocks).pending,
            ..k
        }),
{
}

} // verus!
