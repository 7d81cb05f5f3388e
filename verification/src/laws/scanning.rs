//! What a pass over due deadlines finds and ends, said of the tasks themselves.
use vstd::prelude::*;

use crate::deferred::{
    CpuItem, Pending, RecvTimeoutPostWork, ReplyTimeoutPostWork, SendTimeoutPostWork,
    CT_POST_WORK_SLOTS, IPC_TIMEOUT_SCAN_WINDOW, RT_POST_WORK_SLOTS, ST_POST_WORK_SLOTS,
};
use crate::ids::{Asid, CpuId};
use crate::kernel::Kernel;
use crate::runtime::timeouts::{Clocks, Scan};
use crate::seqs;
use crate::task::{
    BlockedSyscallClass, BlockedSyscallCompletion, ReplyDeadlineClock, TaskStatus, Tasks,
    ThreadControlBlock, WaitReason,
};

verus! {

broadcast use {
    crate::task::lemma_task_kept_apart,
    crate::task::lemma_incarnation_kept_apart,
};

/// The time on the clock that a call's deadline is measured with.
pub open spec fn own_clock(clocks: Clocks, clock: ReplyDeadlineClock) -> u64 {
    if clock == ReplyDeadlineClock::ProductionTick {
        clocks.production_now
    } else {
        clocks.oracle_now
    }
}

/// How many of the `n` slots from `start` on, around the table, hold a task.
pub open spec fn tasks_seen(tasks: Tasks, start: int, n: int) -> nat
    decreases n,
{
    if n <= 0 {
        0
    } else {
        tasks_seen(tasks, start, n - 1) + (if tasks.tcbs[(start + n - 1) % tasks.tcbs.len() as int]
            is Some {
            1nat
        } else {
            0nat
        })
    }
}

proof fn lemma_around(tasks: Tasks, start: int, step: int)
    requires
        0 <= start < tasks.tcbs.len(),
        0 <= step < tasks.tcbs.len(),
    ensures
        tasks.around(start, step) == (start + step) % tasks.tcbs.len() as int,
        0 <= tasks.around(start, step) < tasks.tcbs.len(),
{
    let len = tasks.tcbs.len() as int;
    if start + step < len {
        vstd::arithmetic::div_mod::lemma_small_mod((start + step) as nat, len as nat);
    } else {
        vstd::arithmetic::div_mod::lemma_small_mod((start + step - len) as nat, len as nat);
        vstd::arithmetic::div_mod::lemma_mod_add_multiples_vanish(start + step - len, len);
    }
}

/// A scan passes one slot after another until it has looked at as many tasks as it may, and looks
/// at every task that it passes.
pub proof fn law_scan_passes_every_slot(tasks: Tasks, start: int, clocks: Clocks, n: int)
    requires
        0 <= start < tasks.tcbs.len(),
        0 <= n <= tasks.tcbs.len(),
    ensures
        tasks.scan(start, clocks, n).examined == tasks_seen(
            tasks,
            start,
            tasks.scan(start, clocks, n).scanned as int,
        ),
        tasks.scan(start, clocks, n).scanned <= n,
        tasks.scan(start, clocks, n).examined <= 64,
        tasks.scan(start, clocks, n).scanned < n ==> tasks.scan(start, clocks, n).examined == 64,
        tasks_seen(tasks, start, n) < 64 ==> tasks.scan(start, clocks, n).scanned == n,
    decreases n,
{
    if n > 0 {
        law_scan_passes_every_slot(tasks, start, clocks, n - 1);
        lemma_around(tasks, start, n - 1);
    }
}

/// Is the work in the list, or is the list full?
pub open spec fn listed_or_full<T>(list: Seq<T>, work: T, slots: int) -> bool {
    list.len() >= slots || list.contains(work)
}

/// A list that grows keeps what it has.
proof fn lemma_scan_grows(tasks: Tasks, start: int, clocks: Clocks, m: int, n: int)
    requires
        0 <= m <= n,
    ensures
        tasks.scan(start, clocks, m).send.is_prefix_of(tasks.scan(start, clocks, n).send),
        tasks.scan(start, clocks, m).recv.is_prefix_of(tasks.scan(start, clocks, n).recv),
        tasks.scan(start, clocks, m).reply.is_prefix_of(tasks.scan(start, clocks, n).reply),
        tasks.scan(start, clocks, n).send.len() <= ST_POST_WORK_SLOTS,
        tasks.scan(start, clocks, n).recv.len() <= CT_POST_WORK_SLOTS,
        tasks.scan(start, clocks, n).reply.len() <= RT_POST_WORK_SLOTS,
    decreases n,
{
    if m < n {
        lemma_scan_grows(tasks, start, clocks, m, n - 1);
    } else if n > 0 {
        lemma_scan_grows(tasks, start, clocks, n - 1, n - 1);
    }
}

/// Everything that is due among the tasks that a scan looks at is found: a send or a receive whose
/// deadline is not later than the clock of sends, and a call whose deadline is not later than its
/// own clock, is in the list of its kind, unless that list is full.
pub proof fn law_scan_finds_what_is_due(
    tasks: Tasks,
    start: int,
    clocks: Clocks,
    n: int,
    step: int,
    deadline: u64,
)
    requires
        0 <= start < tasks.tcbs.len(),
        0 <= step < n <= tasks.tcbs.len(),
        tasks_seen(tasks, start, step) < 64,
        tasks.tcbs[(start + step) % tasks.tcbs.len() as int] is Some,
        tasks.tcbs[(start + step) % tasks.tcbs.len() as int]->0.ipc_timeout_deadline == Some(
            deadline,
        ),
    ensures
        ({
            let tcb = tasks.tcbs[(start + step) % tasks.tcbs.len() as int]->0;
            let found = tasks.scan(start, clocks, n);
            &&& tcb.reply_timeout_token is None && deadline <= clocks.send_now && (
            tcb.status matches TaskStatus::Blocked(WaitReason::EndpointSend(_)))
                ==> listed_or_full(
                found.send,
                SendTimeoutPostWork {
                    tid: tcb.tid.0,
                    asid: tcb.asid,
                    send_generation: tcb.blocked_send_generation,
                    deadline,
                },
                16,
            )
            &&& tcb.reply_timeout_token is None && deadline <= clocks.send_now && (
            tcb.status matches TaskStatus::Blocked(WaitReason::EndpointReceive(_)))
                ==> listed_or_full(
                found.recv,
                RecvTimeoutPostWork {
                    tid: tcb.tid.0,
                    asid: tcb.asid,
                    wait_generation: tcb.blocked_recv_generation,
                    deadline,
                },
                16,
            )
            &&& tcb.reply_timeout_token is Some && deadline <= own_clock(
                clocks,
                tcb.reply_timeout_clock,
            ) ==> listed_or_full(
                found.reply,
                ReplyTimeoutPostWork {
                    handle: tcb.reply_timeout_token->0,
                    deadline,
                    clock: tcb.reply_timeout_clock,
                },
                16,
            )
        }),
{
    let tcb = tasks.tcbs[(start + step) % tasks.tcbs.len() as int]->0;
    lemma_around(tasks, start, step);
    law_scan_passes_every_slot(tasks, start, clocks, step);
    let before = tasks.scan(start, clocks, step);
    let here = tasks.scan(start, clocks, step + 1);
    let found = tasks.scan(start, clocks, n);
    assert(before.examined < IPC_TIMEOUT_SCAN_WINDOW);
    assert(here == Scan {
        scanned: before.scanned + 1,
        examined: before.examined + 1,
        ..before
    }.with_task(tcb, clocks));
    lemma_scan_grows(tasks, start, clocks, step + 1, n);
    if tcb.reply_timeout_token is None && deadline <= clocks.send_now {
        if tcb.status.spec_sending() && before.send.len() < 16 {
            assert(here.send.last() == found.send[here.send.len() - 1]);
        }
        if tcb.status.spec_receiving() && before.recv.len() < 16 {
            assert(here.recv.last() == found.recv[here.recv.len() - 1]);
        }
    }
    if tcb.reply_timeout_token is Some && here.reply.len() > before.reply.len() {
        assert(here.reply.last() == found.reply[here.reply.len() - 1]);
    }
}

/// Whatever a scan lists is the due deadline of a task in the table, under its own number, address
/// space and block.
pub proof fn law_scan_lists_tasks(tasks: Tasks, start: int, clocks: Clocks, n: int)
    requires
        0 <= start < tasks.tcbs.len(),
        0 <= n <= tasks.tcbs.len(),
    ensures
        forall|m: int|
            0 <= m < tasks.scan(start, clocks, n).send.len() ==> exists|i: int|
                0 <= i < tasks.tcbs.len() && (#[trigger] tasks.tcbs[i]) is Some && {
                    let work = #[trigger] tasks.scan(start, clocks, n).send[m];
                    let tcb = tasks.tcbs[i]->0;
                    &&& tcb.tid.0 == work.tid && tcb.asid == work.asid
                    &&& tcb.blocked_send_generation == work.send_generation
                    &&& tcb.ipc_timeout_deadline == Some(work.deadline)
                    &&& tcb.reply_timeout_token is None
                    &&& tcb.status matches TaskStatus::Blocked(WaitReason::EndpointSend(_))
                    &&& work.deadline <= clocks.send_now
                },
        forall|m: int|
            0 <= m < tasks.scan(start, clocks, n).recv.len() ==> exists|i: int|
                0 <= i < tasks.tcbs.len() && (#[trigger] tasks.tcbs[i]) is Some && {
                    let work = #[trigger] tasks.scan(start, clocks, n).recv[m];
                    let tcb = tasks.tcbs[i]->0;
                    &&& tcb.tid.0 == work.tid && tcb.asid == work.asid
                    &&& tcb.blocked_recv_generation == work.wait_generation
                    &&& tcb.ipc_timeout_deadline == Some(work.deadline)
                    &&& tcb.reply_timeout_token is None
                    &&& tcb.status matches TaskStatus::Blocked(WaitReason::EndpointReceive(_))
                    &&& work.deadline <= clocks.send_now
                },
        forall|m: int|
            0 <= m < tasks.scan(start, clocks, n).reply.len() ==> exists|i: int|
                0 <= i < tasks.tcbs.len() && (#[trigger] tasks.tcbs[i]) is Some && {
                    let work = #[trigger] tasks.scan(start, clocks, n).reply[m];
                    let tcb = tasks.tcbs[i]->0;
                    &&& tcb.reply_timeout_token == Some(work.handle)
                    &&& tcb.reply_timeout_clock == work.clock
                    &&& tcb.ipc_timeout_deadline == Some(work.deadline)
                    &&& work.deadline <= own_clock(clocks, work.clock)
                },
    decreases n,
{
    if n > 0 {
        law_scan_lists_tasks(tasks, start, clocks, n - 1);
        lemma_around(tasks, start, n - 1);
        let at = tasks.around(start, n - 1);
        let before = tasks.scan(start, clocks, n - 1);
        let here = tasks.scan(start, clocks, n);
        assert forall|m: int| 0 <= m < here.send.len() implies exists|i: int|
            0 <= i < tasks.tcbs.len() && (#[trigger] tasks.tcbs[i]) is Some && {
                let work = #[trigger] here.send[m];
                let tcb = tasks.tcbs[i]->0;
                &&& tcb.tid.0 == work.tid && tcb.asid == work.asid
                &&& tcb.blocked_send_generation == work.send_generation
                &&& tcb.ipc_timeout_deadline == Some(work.deadline)
                &&& tcb.reply_timeout_token is None
                &&& tcb.status matches TaskStatus::Blocked(WaitReason::EndpointSend(_))
                &&& work.deadline <= clocks.send_now
            } by {
            if m < before.send.len() {
                assert(here.send[m] == before.send[m]);
            } else {
                assert(tasks.tcbs[at] is Some);
            }
        }
        assert forall|m: int| 0 <= m < here.recv.len() implies exists|i: int|
            0 <= i < tasks.tcbs.len() && (#[trigger] tasks.tcbs[i]) is Some && {
                let work = #[trigger] here.recv[m];
                let tcb = tasks.tcbs[i]->0;
                &&& tcb.tid.0 == work.tid && tcb.asid == work.asid
                &&& tcb.blocked_recv_generation == work.wait_generation
                &&& tcb.ipc_timeout_deadline == Some(work.deadline)
                &&& tcb.reply_timeout_token is None
                &&& tcb.status matches TaskStatus::Blocked(WaitReason::EndpointReceive(_))
                &&& work.deadline <= clocks.send_now
            } by {
            if m < before.recv.len() {
                assert(here.recv[m] == before.recv[m]);
            } else {
                assert(tasks.tcbs[at] is Some);
            }
        }
        assert forall|m: int| 0 <= m < here.reply.len() implies exists|i: int|
            0 <= i < tasks.tcbs.len() && (#[trigger] tasks.tcbs[i]) is Some && {
                let work = #[trigger] here.reply[m];
                let tcb = tasks.tcbs[i]->0;
                &&& tcb.reply_timeout_token == Some(work.handle)
                &&& tcb.reply_timeout_clock == work.clock
                &&& tcb.ipc_timeout_deadline == Some(work.deadline)
                &&& work.deadline <= own_clock(clocks, work.clock)
            } by {
            if m < before.reply.len() {
                assert(here.reply[m] == before.reply[m]);
            } else {
                assert(tasks.tcbs[at] is Some);
            }
        }
    }
}

/// The next scan of a processor starts behind the last slot that this one passed.
pub proof fn law_scan_goes_on_where_it_stopped(k: Kernel, cpu: CpuId, clocks: Clocks)
    requires
        k.tasks.tcbs.len() > 0,
        k.tasks.tcbs.len() <= usize::MAX,
        (cpu.0 as int) < k.pending.cursors.len(),
    ensures
        ({
            let c = cpu.0 as int;
            let len = k.tasks.tcbs.len() as int;
            let start = k.pending.cursors[c] as int % len;
            let found = k.tasks.scan(start, clocks, len);
            &&& k.timeouts_collected(cpu, clocks).pending.cursors.len() == k.pending.cursors.len()
            &&& k.timeouts_collected(cpu, clocks).pending.cursors[c] as int % len == (start
                + found.scanned) % len
            &&& forall|d: int|
                0 <= d < k.pending.cursors.len() && d != c
                    ==> #[trigger] k.timeouts_collected(cpu, clocks).pending.cursors[d]
                    == k.pending.cursors[d]
        }),
{
    let c = cpu.0 as int;
    let len = k.tasks.tcbs.len() as int;
    let start = k.pending.cursors[c] as int % len;
    law_scan_passes_every_slot(k.tasks, start, clocks, len);
    let scanned = k.tasks.scan(start, clocks, len).scanned as int;
    let next = k.tasks.around(start, scanned);
    assert(0 <= next < len);
    vstd::arithmetic::div_mod::lemma_small_mod(next as nat, len as nat);
    if start + scanned < len {
        vstd::arithmetic::div_mod::lemma_small_mod((start + scanned) as nat, len as nat);
    } else {
        vstd::arithmetic::div_mod::lemma_mod_add_multiples_vanish(start + scanned - len, len);
        if start + scanned - len == len {
            assert(false);
        }
    }
}

/// Does no deadline of a call, noted or listed, belong to task `tid`?
pub open spec fn no_call_of(k: Kernel, tid: u64) -> bool {
    &&& forall|s: int|
        0 <= s < k.tasks.tcbs.len() && (#[trigger] k.tasks.tcbs[s]) is Some
            && k.tasks.tcbs[s]->0.reply_timeout_token is Some
            ==> k.tasks.tcbs[s]->0.reply_timeout_token->0.identity.terminal_identity.caller_tid.0
            != tid
    &&& no_listed_call_of(k.pending.reply, tid)
}

pub open spec fn no_listed_call_of(items: Seq<CpuItem<ReplyTimeoutPostWork>>, tid: u64) -> bool {
    forall|m: int|
        0 <= m < items.len() ==> (
        #[trigger] items[m]).item.handle.identity.terminal_identity.caller_tid.0 != tid
}

proof fn lemma_published_calls(
    items: Seq<CpuItem<ReplyTimeoutPostWork>>,
    cpu: CpuId,
    works: Seq<ReplyTimeoutPostWork>,
    n: int,
    tid: u64,
)
    requires
        0 <= n <= works.len(),
        no_listed_call_of(items, tid),
        forall|m: int|
            0 <= m < works.len() ==> (
            #[trigger] works[m]).handle.identity.terminal_identity.caller_tid.0 != tid,
    ensures
        no_listed_call_of(
            crate::runtime::timeouts::replies_published(items, cpu, works, n),
            tid,
        ),
    decreases n,
{
    if n > 0 {
        lemma_published_calls(items, cpu, works, n - 1, tid);
    }
}

/// Settling calls leaves a task alone that none of them belongs to.
proof fn lemma_replies_spare(k: Kernel, cpu: CpuId, clocks: Clocks, n: nat, i: int)
    requires
        k.tasks.apart(),
        0 <= i < k.tasks.tcbs.len(),
        k.tasks.tcbs[i] is Some,
        no_listed_call_of(k.pending.reply, k.tasks.tcbs[i]->0.tid.0),
    ensures
        ({
            let after = k.replies_settled(cpu, clocks, n);
            &&& after.tasks.apart()
            &&& after.tasks.tcbs.len() == k.tasks.tcbs.len()
            &&& after.tasks.tcbs[i] == k.tasks.tcbs[i]
            &&& after.pending.send == k.pending.send
            &&& after.pending.recv == k.pending.recv
        }),
    decreases n,
{
    if n > 0 {
        if let Some(work) = crate::deferred::oldest(k.pending.reply, cpu) {
            let p = crate::deferred::listed_for::<ReplyTimeoutPostWork>(cpu);
            seqs::lemma_first_where(k.pending.reply, p);
            let items = crate::deferred::oldest_taken(k.pending.reply, cpu);
            let taken = Kernel { pending: Pending { reply: items, ..k.pending }, ..k };
            let now = clocks.spec_reply_now(work.clock);
            let tid = k.tasks.tcbs[i]->0.tid.0;
            assert(work.handle.identity.terminal_identity.caller_tid.0 != tid);
            assert forall|m: int| 0 <= m < items.len() implies (
            #[trigger] items[m]).item.handle.identity.terminal_identity.caller_tid.0 != tid by {
                let f = seqs::first_where(k.pending.reply, p);
                if m < f {
                    assert(items[m] == k.pending.reply[m]);
                } else {
                    assert(items[m] == k.pending.reply[m + 1]);
                }
            }
            if now >= work.deadline {
                let next = taken.reply_settled(work, now);
                lemma_reply_spares(taken, work, now, i);
                lemma_replies_spare(next, cpu, clocks, (n - 1) as nat, i);
            }
        }
    }
}

proof fn lemma_reply_spares(k: Kernel, work: ReplyTimeoutPostWork, now: u64, i: int)
    requires
        k.tasks.apart(),
        0 <= i < k.tasks.tcbs.len(),
        k.tasks.tcbs[i] is Some,
        work.handle.identity.terminal_identity.caller_tid.0 != k.tasks.tcbs[i]->0.tid.0,
    ensures
        k.reply_settled(work, now).tasks.apart(),
        k.reply_settled(work, now).tasks.tcbs.len() == k.tasks.tcbs.len(),
        k.reply_settled(work, now).tasks.tcbs[i] == k.tasks.tcbs[i],
        k.reply_settled(work, now).pending == k.pending,
{
    let identity = work.handle.identity.terminal_identity;
    let tid = identity.caller_tid.0;
    let asid = Some(identity.caller_asid);
    seqs::lemma_first_where(k.tasks.tcbs, crate::task::is_incarnation(tid, asid));
    seqs::lemma_first_where(k.tasks.tcbs, crate::task::has_tid(tid));
    let fired = k.after_reply_fire(work.handle, now);
    assert(fired.tasks.apart() && fired.tasks.tcbs[i] == k.tasks.tcbs[i]);
    seqs::lemma_first_where(fired.tasks.tcbs, crate::task::has_tid(tid));
}

/// The end of a send whose deadline passed.
pub open spec fn send_ended(tcb: ThreadControlBlock, before: ThreadControlBlock) -> bool {
    &&& tcb.tid == before.tid && tcb.asid == before.asid
    &&& tcb.status == TaskStatus::Runnable
    &&& tcb.ipc_timeout_fired
    &&& tcb.ipc_timeout_deadline is None
    &&& before.asid matches Some(asid) ==> tcb.pending_syscall_completion == Some(
        BlockedSyscallCompletion {
            syscall_class: BlockedSyscallClass::IpcSend,
            result: 9,
            tid: before.tid.0,
            asid,
            blocked_generation: before.blocked_send_generation,
        },
    )
}

/// The end of a receive whose deadline passed.
pub open spec fn recv_ended(tcb: ThreadControlBlock, before: ThreadControlBlock) -> bool {
    &&& tcb.tid == before.tid && tcb.asid == before.asid
    &&& tcb.status == TaskStatus::Runnable
    &&& tcb.ipc_timeout_fired
    &&& tcb.ipc_timeout_deadline is None
}

/// Does no sender wait as this block of task `tid`?
pub open spec fn sends_nowhere(k: Kernel, tid: u64, generation: u64) -> bool {
    forall|s: int|
        0 <= s < k.ipc.senders.len() && (#[trigger] k.ipc.senders[s]) is Some
            ==> k.ipc.senders[s]->0.tid.0 != tid || k.ipc.senders[s]->0.send_generation
            != generation
}

/// Does this incarnation wait at no endpoint?
pub open spec fn receives_nowhere(k: Kernel, tid: u64, asid: Asid) -> bool {
    forall|e: int|
        0 <= e < k.ipc.endpoints.len() && (#[trigger] k.ipc.endpoints[e]).waiter is Some
            ==> k.ipc.endpoints[e].waiter->0.receiver.tid.0 != tid
            || k.ipc.endpoints[e].waiter->0.receiver.asid != asid
}

proof fn lemma_taken_keeps<T>(items: Seq<CpuItem<T>>, cpu: CpuId, item: CpuItem<T>)
    requires
        items.contains(item),
        item.cpu == cpu,
    ensures
        crate::deferred::oldest(items, cpu) is Some,
        crate::deferred::oldest(items, cpu) == Some(item.item) || crate::deferred::oldest_taken(
            items,
            cpu,
        ).contains(item),
{
    let p = crate::deferred::listed_for::<T>(cpu);
    seqs::lemma_first_where(items, p);
    let at = choose|at: int| 0 <= at < items.len() && items[at] == item;
    assert(p(items[at]));
    let f = seqs::first_where(items, p);
    let rest = items.remove(f);
    if at < f {
        assert(rest[at] == item);
    } else if at > f {
        assert(rest[at - 1] == item);
    }
}

proof fn lemma_some_left<T>(items: Seq<CpuItem<T>>, cpu: CpuId, item: CpuItem<T>)
    requires
        items.contains(item),
        item.cpu == cpu,
    ensures
        seqs::count_where(items, crate::deferred::listed_for::<T>(cpu)) > 0,
{
    let p = crate::deferred::listed_for::<T>(cpu);
    let at = choose|at: int| 0 <= at < items.len() && items[at] == item;
    assert(p(items[at]));
    seqs::lemma_first_where(items, p);
    seqs::lemma_count_zero(items, p);
}

proof fn lemma_one_taken<T>(items: Seq<CpuItem<T>>, cpu: CpuId)
    requires
        crate::deferred::oldest(items, cpu) is Some,
    ensures
        seqs::count_where(items, crate::deferred::listed_for::<T>(cpu)) == seqs::count_where(
            crate::deferred::oldest_taken(items, cpu),
            crate::deferred::listed_for::<T>(cpu),
        ) + 1,
{
    let p = crate::deferred::listed_for::<T>(cpu);
    seqs::lemma_first_where(items, p);
    seqs::lemma_count_remove(items, seqs::first_where(items, p), p);
}

/// Settling one due send ends exactly the send that it names.
proof fn lemma_send_step(k: Kernel, work: SendTimeoutPostWork, now: u64, i: int)
    requires
        k.tasks.apart(),
        0 <= i < k.tasks.tcbs.len(),
        k.tasks.tcbs[i] is Some,
    ensures
        ({
            let tcb = k.tasks.tcbs[i]->0;
            let after = k.send_settled(work, now);
            let named = tcb.tid.0 == work.tid && tcb.asid == work.asid
                && tcb.blocked_send_generation == work.send_generation
                && tcb.ipc_timeout_deadline == Some(work.deadline) && now >= work.deadline && (
            tcb.status matches TaskStatus::Blocked(WaitReason::EndpointSend(_)));
            &&& after.tasks.apart()
            &&& after.tasks.tcbs.len() == k.tasks.tcbs.len()
            &&& after.tasks.tcbs[i] is Some
            &&& named ==> send_ended(after.tasks.tcbs[i]->0, tcb) && sends_nowhere(
                after,
                work.tid,
                work.send_generation,
            )
            &&& !named ==> after.tasks.tcbs[i] == k.tasks.tcbs[i]
            &&& after.pending == k.pending
            &&& forall|t: u64, g: u64|
                sends_nowhere(k, t, g) ==> #[trigger] sends_nowhere(after, t, g)
        }),
{
    let tcb = k.tasks.tcbs[i]->0;
    crate::laws::slots::law_task_is_found_where_it_stands(k.tasks, i);
    seqs::lemma_first_where(k.tasks.tcbs, crate::task::is_incarnation(work.tid, work.asid));
    if k.send_claimable(work, now) {
        crate::laws::slots::lemma_exact_is_found(k.tasks, work.tid, work.asid);
    }
}

/// Settling one due receive ends exactly the receive that it names.
proof fn lemma_recv_step(k: Kernel, work: RecvTimeoutPostWork, now: u64, i: int)
    requires
        k.tasks.apart(),
        0 <= i < k.tasks.tcbs.len(),
        k.tasks.tcbs[i] is Some,
    ensures
        ({
            let tcb = k.tasks.tcbs[i]->0;
            let after = k.recv_settled(work, now);
            let named = tcb.tid.0 == work.tid && tcb.asid == work.asid
                && tcb.blocked_recv_generation == work.wait_generation
                && tcb.ipc_timeout_deadline == Some(work.deadline) && now >= work.deadline
                && tcb.reply_timeout_token is None && (
            tcb.status matches TaskStatus::Blocked(WaitReason::EndpointReceive(_)));
            &&& after.tasks.apart()
            &&& after.tasks.tcbs.len() == k.tasks.tcbs.len()
            &&& after.tasks.tcbs[i] is Some
            &&& named ==> recv_ended(after.tasks.tcbs[i]->0, tcb) && (
            tcb.asid matches Some(asid) ==> receives_nowhere(after, work.tid, asid))
            &&& !named ==> after.tasks.tcbs[i] == k.tasks.tcbs[i]
            &&& after.pending == k.pending
            &&& forall|t: u64, a: Asid|
                receives_nowhere(k, t, a) ==> #[trigger] receives_nowhere(after, t, a)
            &&& forall|t: u64, g: u64|
                sends_nowhere(k, t, g) ==> #[trigger] sends_nowhere(after, t, g)
        }),
{
    let tcb = k.tasks.tcbs[i]->0;
    crate::laws::slots::law_task_is_found_where_it_stands(k.tasks, i);
    seqs::lemma_first_where(k.tasks.tcbs, crate::task::is_incarnation(work.tid, work.asid));
    if k.recv_claimable(work, now) {
        crate::laws::slots::lemma_exact_is_found(k.tasks, work.tid, work.asid);
    }
}

/// A pass over sends ends the send of task `i` if it is listed, and leaves the task alone if it is
/// not sending.
proof fn lemma_sends_end(
    k: Kernel,
    cpu: CpuId,
    now: u64,
    n: nat,
    i: int,
    work: SendTimeoutPostWork,
    before: ThreadControlBlock,
    over: bool,
)
    requires
        k.tasks.apart(),
        0 <= i < k.tasks.tcbs.len(),
        k.tasks.tcbs[i] is Some,
        n == k.sends_for(cpu),
        before.tid.0 == work.tid && before.asid == work.asid && before.blocked_send_generation
            == work.send_generation && before.ipc_timeout_deadline == Some(work.deadline) && now
            >= work.deadline,
        before.status matches TaskStatus::Blocked(WaitReason::EndpointSend(_)),
        over ==> send_ended(k.tasks.tcbs[i]->0, before) && sends_nowhere(
            k,
            work.tid,
            work.send_generation,
        ),
        !over ==> k.tasks.tcbs[i]->0 == before && k.pending.send.contains(
            CpuItem { cpu, item: work },
        ),
    ensures
        ({
            let after = k.sends_settled(cpu, now, n);
            &&& after.tasks.apart()
            &&& after.tasks.tcbs.len() == k.tasks.tcbs.len()
            &&& after.tasks.tcbs[i] is Some
            &&& send_ended(after.tasks.tcbs[i]->0, before)
            &&& sends_nowhere(after, work.tid, work.send_generation)
        }),
    decreases n,
{
    if !over {
        lemma_some_left(k.pending.send, cpu, CpuItem { cpu, item: work });
        lemma_taken_keeps(k.pending.send, cpu, CpuItem { cpu, item: work });
    }
    if n > 0 {
        if let Some(w) = crate::deferred::oldest(k.pending.send, cpu) {
            let taken = Kernel {
                pending: Pending {
                    send: crate::deferred::oldest_taken(k.pending.send, cpu),
                    ..k.pending
                },
                ..k
            };
            lemma_one_taken(k.pending.send, cpu);
            lemma_send_step(taken, w, now, i);
            let next = taken.send_settled(w, now);
            assert(sends_nowhere(taken, work.tid, work.send_generation) == sends_nowhere(
                k,
                work.tid,
                work.send_generation,
            ));
            let done = over || w == work || (w.tid == before.tid.0 && w.asid == before.asid
                && w.send_generation == before.blocked_send_generation
                && before.ipc_timeout_deadline == Some(w.deadline) && now >= w.deadline);
            lemma_sends_end(next, cpu, now, (n - 1) as nat, i, work, before, done);
        }
    }
}

proof fn lemma_sends_spare(k: Kernel, cpu: CpuId, now: u64, n: nat, i: int)
    requires
        k.tasks.apart(),
        0 <= i < k.tasks.tcbs.len(),
        k.tasks.tcbs[i] is Some,
        !(k.tasks.tcbs[i]->0.status matches TaskStatus::Blocked(WaitReason::EndpointSend(_))),
    ensures
        k.sends_settled(cpu, now, n).tasks.apart(),
        k.sends_settled(cpu, now, n).tasks.tcbs.len() == k.tasks.tcbs.len(),
        k.sends_settled(cpu, now, n).tasks.tcbs[i] == k.tasks.tcbs[i],
        k.sends_settled(cpu, now, n).pending.recv == k.pending.recv,
    decreases n,
{
    if n > 0 {
        if let Some(w) = crate::deferred::oldest(k.pending.send, cpu) {
            let taken = Kernel {
                pending: Pending {
                    send: crate::deferred::oldest_taken(k.pending.send, cpu),
                    ..k.pending
                },
                ..k
            };
            lemma_send_step(taken, w, now, i);
            lemma_sends_spare(taken.send_settled(w, now), cpu, now, (n - 1) as nat, i);
        }
    }
}

proof fn lemma_recvs_spare(k: Kernel, cpu: CpuId, now: u64, n: nat, i: int, t: u64, g: u64)
    requires
        k.tasks.apart(),
        0 <= i < k.tasks.tcbs.len(),
        k.tasks.tcbs[i] is Some,
        !(k.tasks.tcbs[i]->0.status matches TaskStatus::Blocked(WaitReason::EndpointReceive(_))),
    ensures
        k.recvs_settled(cpu, now, n).tasks.tcbs.len() == k.tasks.tcbs.len(),
        k.recvs_settled(cpu, now, n).tasks.tcbs[i] == k.tasks.tcbs[i],
        sends_nowhere(k, t, g) ==> sends_nowhere(k.recvs_settled(cpu, now, n), t, g),
    decreases n,
{
    if n > 0 {
        if let Some(w) = crate::deferred::oldest(k.pending.recv, cpu) {
            let taken = Kernel {
                pending: Pending {
                    recv: crate::deferred::oldest_taken(k.pending.recv, cpu),
                    ..k.pending
                },
                ..k
            };
            lemma_recv_step(taken, w, now, i);
            assert(sends_nowhere(taken, t, g) == sends_nowhere(k, t, g));
            lemma_recvs_spare(taken.recv_settled(w, now), cpu, now, (n - 1) as nat, i, t, g);
        }
    }
}

proof fn lemma_recvs_end(
    k: Kernel,
    cpu: CpuId,
    now: u64,
    n: nat,
    i: int,
    work: RecvTimeoutPostWork,
    before: ThreadControlBlock,
    over: bool,
)
    requires
        k.tasks.apart(),
        0 <= i < k.tasks.tcbs.len(),
        k.tasks.tcbs[i] is Some,
        n == k.recvs_for(cpu),
        before.tid.0 == work.tid && before.asid == work.asid && before.blocked_recv_generation
            == work.wait_generation && before.ipc_timeout_deadline == Some(work.deadline) && now
            >= work.deadline && before.reply_timeout_token is None,
        before.status matches TaskStatus::Blocked(WaitReason::EndpointReceive(_)),
        over ==> recv_ended(k.tasks.tcbs[i]->0, before) && (before.asid matches Some(asid)
            ==> receives_nowhere(k, work.tid, asid)),
        !over ==> k.tasks.tcbs[i]->0 == before && k.pending.recv.contains(
            CpuItem { cpu, item: work },
        ),
    ensures
        ({
            let after = k.recvs_settled(cpu, now, n);
            &&& after.tasks.tcbs.len() == k.tasks.tcbs.len()
            &&& after.tasks.tcbs[i] is Some
            &&& recv_ended(after.tasks.tcbs[i]->0, before)
            &&& before.asid matches Some(asid) ==> receives_nowhere(after, work.tid, asid)
        }),
    decreases n,
{
    if !over {
        lemma_some_left(k.pending.recv, cpu, CpuItem { cpu, item: work });
        lemma_taken_keeps(k.pending.recv, cpu, CpuItem { cpu, item: work });
    }
    if n > 0 {
        if let Some(w) = crate::deferred::oldest(k.pending.recv, cpu) {
            let taken = Kernel {
                pending: Pending {
                    recv: crate::deferred::oldest_taken(k.pending.recv, cpu),
                    ..k.pending
                },
                ..k
            };
            lemma_one_taken(k.pending.recv, cpu);
            lemma_recv_step(taken, w, now, i);
            let next = taken.recv_settled(w, now);
            if let Some(asid) = before.asid {
                assert(receives_nowhere(taken, work.tid, asid) == receives_nowhere(
                    k,
                    work.tid,
                    asid,
                ));
            }
            let done = over || w == work || (w.tid == before.tid.0 && w.asid == before.asid
                && w.wait_generation == before.blocked_recv_generation
                && before.ipc_timeout_deadline == Some(w.deadline) && now >= w.deadline);
            lemma_recvs_end(next, cpu, now, (n - 1) as nat, i, work, before, done);
        }
    }
}

proof fn lemma_all_offered<T>(
    items: Seq<CpuItem<T>>,
    cpu: CpuId,
    works: Seq<T>,
    limit: usize,
    n: int,
)
    requires
        0 <= n <= works.len() <= limit,
        seqs::count_where(items, crate::deferred::listed_for::<T>(cpu)) == 0,
    ensures
        seqs::count_where(
            crate::runtime::timeouts::all_offered(items, cpu, works, limit, n),
            crate::deferred::listed_for::<T>(cpu),
        ) == n,
        forall|m: int|
            0 <= m < n ==> crate::runtime::timeouts::all_offered(
                items,
                cpu,
                works,
                limit,
                n,
            ).contains(CpuItem { cpu, item: #[trigger] works[m] }),
    decreases n,
{
    if n > 0 {
        lemma_all_offered(items, cpu, works, limit, n - 1);
        let before = crate::runtime::timeouts::all_offered(items, cpu, works, limit, n - 1);
        let here = crate::runtime::timeouts::all_offered(items, cpu, works, limit, n);
        assert(here.drop_last() =~= before);
        assert forall|m: int| 0 <= m < n implies here.contains(
            CpuItem { cpu, item: #[trigger] works[m] },
        ) by {
            if m < n - 1 {
                let item = CpuItem { cpu, item: works[m] };
                let at = choose|at: int| 0 <= at < before.len() && before[at] == item;
                assert(here[at] == item);
            } else {
                assert(here.last() == CpuItem { cpu, item: works[m] });
            }
        }
    }
}

/// One pass ends the waits that it finds due.  A task that is blocked in a send or in a receive,
/// whose deadline is not later than the clock, and which the scan of the pass reaches while the
/// list of its kind has room, is runnable behind the pass, knows that its deadline fired, and has
/// none any more.  The sender finds the timeout as the result of that very send and its message
/// waits nowhere; the receiver waits at no endpoint.
pub proof fn law_pass_ends_what_is_due(
    k: Kernel,
    cpu: CpuId,
    clocks: Clocks,
    step: int,
    deadline: u64,
)
    requires
        k.tasks.apart(),
        k.tasks.tcbs.len() > 0,
        (cpu.0 as int) < k.pending.cursors.len(),
        0 <= step < k.tasks.tcbs.len(),
        deadline <= clocks.send_now,
        forall|m: int| 0 <= m < k.pending.send.len() ==> (#[trigger] k.pending.send[m]).cpu != cpu,
        forall|m: int| 0 <= m < k.pending.recv.len() ==> (#[trigger] k.pending.recv[m]).cpu != cpu,
        ({
            let len = k.tasks.tcbs.len() as int;
            let start = k.pending.cursors[cpu.0 as int] as int % len;
            let slot = k.tasks.tcbs[(start + step) % len];
            let found = k.tasks.scan(start, clocks, len);
            &&& tasks_seen(k.tasks, start, step) < 64
            &&& slot is Some
            &&& no_call_of(k, slot->0.tid.0)
            &&& slot->0.ipc_timeout_deadline == Some(deadline)
            &&& slot->0.reply_timeout_token is None
            &&& ({
                ||| (slot->0.status matches TaskStatus::Blocked(WaitReason::EndpointSend(_))
                    && found.send.len() < 16)
                ||| (slot->0.status matches TaskStatus::Blocked(WaitReason::EndpointReceive(_))
                    && found.recv.len() < 16)
            })
        }),
    ensures
        ({
            let len = k.tasks.tcbs.len() as int;
            let i = (k.pending.cursors[cpu.0 as int] as int % len + step) % len;
            let before = k.tasks.tcbs[i]->0;
            let after = k.timeouts_run(cpu, clocks);
            &&& after.tasks.tcbs[i] is Some
            &&& before.status matches TaskStatus::Blocked(WaitReason::EndpointSend(_))
                ==> send_ended(after.tasks.tcbs[i]->0, before) && sends_nowhere(
                after,
                before.tid.0,
                before.blocked_send_generation,
            )
            &&& before.status matches TaskStatus::Blocked(WaitReason::EndpointReceive(_))
                ==> recv_ended(after.tasks.tcbs[i]->0, before) && (before.asid matches Some(asid)
                ==> receives_nowhere(after, before.tid.0, asid))
        }),
{
    let len = k.tasks.tcbs.len() as int;
    let start = k.pending.cursors[cpu.0 as int] as int % len;
    let i = (start + step) % len;
    lemma_around(k.tasks, start, step);
    let before = k.tasks.tcbs[i]->0;
    let tid = before.tid.0;
    let found = k.tasks.scan(start, clocks, len);
    let listed = k.timeouts_collected(cpu, clocks);
    let sends = crate::deferred::listed_for::<SendTimeoutPostWork>(cpu);
    let recvs = crate::deferred::listed_for::<RecvTimeoutPostWork>(cpu);
    assert(k.pending.scan_start(cpu, len) == start);
    law_scan_finds_what_is_due(k.tasks, start, clocks, len, step, deadline);
    lemma_scan_grows(k.tasks, start, clocks, len, len);
    law_scan_lists_tasks(k.tasks, start, clocks, len);
    seqs::lemma_first_where(k.pending.send, sends);
    seqs::lemma_count_zero(k.pending.send, sends);
    seqs::lemma_first_where(k.pending.recv, recvs);
    seqs::lemma_count_zero(k.pending.recv, recvs);
    lemma_all_offered(
        k.pending.send,
        cpu,
        found.send,
        ST_POST_WORK_SLOTS,
        found.send.len() as int,
    );
    lemma_all_offered(
        k.pending.recv,
        cpu,
        found.recv,
        CT_POST_WORK_SLOTS,
        found.recv.len() as int,
    );
    assert forall|m: int| 0 <= m < found.reply.len() implies (
    #[trigger] found.reply[m]).handle.identity.terminal_identity.caller_tid.0 != tid by {
        let s = choose|s: int|
            0 <= s < k.tasks.tcbs.len() && (#[trigger] k.tasks.tcbs[s]) is Some
                && k.tasks.tcbs[s]->0.reply_timeout_token == Some(found.reply[m].handle);
        assert(k.tasks.tcbs[s] is Some);
    }
    lemma_published_calls(k.pending.reply, cpu, found.reply, found.reply.len() as int, tid);
    lemma_replies_spare(listed, cpu, clocks, listed.replies_for(cpu), i);
    let replied = listed.replies_settled(cpu, clocks, listed.replies_for(cpu));
    let sent = replied.sends_settled(cpu, clocks.send_now, replied.sends_for(cpu));
    if before.status.spec_sending() {
        let work = SendTimeoutPostWork {
            tid,
            asid: before.asid,
            send_generation: before.blocked_send_generation,
            deadline,
        };
        let m = choose|m: int| 0 <= m < found.send.len() && found.send[m] == work;
        assert(found.send[m] == work);
        lemma_sends_end(
            replied,
            cpu,
            clocks.send_now,
            replied.sends_for(cpu),
            i,
            work,
            before,
            false,
        );
        lemma_recvs_spare(
            sent,
            cpu,
            clocks.send_now,
            sent.recvs_for(cpu),
            i,
            tid,
            before.blocked_send_generation,
        );
    } else {
        let work = RecvTimeoutPostWork {
            tid,
            asid: before.asid,
            wait_generation: before.blocked_recv_generation,
            deadline,
        };
        let m = choose|m: int| 0 <= m < found.recv.len() && found.recv[m] == work;
        assert(found.recv[m] == work);
        lemma_sends_spare(replied, cpu, clocks.send_now, replied.sends_for(cpu), i);
        lemma_recvs_end(
            sent,
            cpu,
            clocks.send_now,
            sent.recvs_for(cpu),
            i,
            work,
            before,
            false,
        );
    }
}

} // verus!
