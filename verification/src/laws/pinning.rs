//! The first user task stays on the bootstrap processor.
use vstd::prelude::*;

use crate::capability::KernelCapacityProfile;
use crate::ids::{CpuId, ThreadId, VirtAddr, BOOTSTRAP_CPU_ID, FIRST_USER_TID};
use crate::ipc::SenderWakeTarget;
use crate::kernel::Kernel;
use crate::runtime::futex::WokenTask;
use crate::scheduler::{Sched, TaskPriority};
use crate::seqs;
use crate::task::{TaskStatus, Tasks, ThreadControlBlock, WaitReason};

verus! {

/// A kernel that has just been started has the first user task nowhere else.
pub proof fn law_start_is_pinned(k: Kernel, profile: KernelCapacityProfile)
    requires
        k.is_fresh(profile),
    ensures
        k.first_user_pinned(),
{
    seqs::lemma_first_where(k.tasks.tcbs, crate::task::has_tid(FIRST_USER_TID));
}

/// Queueing a task keeps the pin, unless it queues the first user task elsewhere.
pub proof fn law_enqueue_keeps_pin(s: Sched, cpu: CpuId, tid: u64, priority: TaskPriority)
    requires
        s.first_user_pinned(),
        s.enqueue_verdict(cpu, tid) is Ok ==> !crate::runtime::pinning::off_pin(cpu, tid),
    ensures
        s.enqueued(cpu, tid, priority).first_user_pinned(),
{
    let after = s.enqueued(cpu, tid, priority);
    assert forall|i: int| 0 <= i < after.queue.len() implies !crate::runtime::pinning::off_pin(
        (#[trigger] after.queue[i]).cpu,
        after.queue[i].tid,
    ) by {
        if i < s.queue.len() {
            assert(after.queue[i] == s.queue[i]);
        }
    }
}

proof fn lemma_current_keeps_pin(s: Sched, cpu: CpuId, tid: Option<u64>, priority: TaskPriority)
    requires
        s.first_user_pinned(),
        s.known(cpu),
        tid == Some(FIRST_USER_TID) ==> cpu.0 == BOOTSTRAP_CPU_ID,
    ensures
        s.with_current(cpu, tid, priority).first_user_pinned(),
{
    let after = s.with_current(cpu, tid, priority);
    assert forall|c: int|
        0 <= c < after.cpus.len() && (#[trigger] after.cpus[c]).current == Some(
            FIRST_USER_TID,
        ) implies c == BOOTSTRAP_CPU_ID by {
        if c != cpu.0 {
            assert(after.cpus[c] == s.cpus[c]);
        }
    }
}

proof fn lemma_taking_keeps_pin(s: Sched, cpu: CpuId, i: int)
    requires
        s.first_user_pinned(),
        s.known(cpu),
        0 <= i < s.queue.len(),
        s.queue[i].cpu == cpu,
    ensures
        s.taking(cpu, i).first_user_pinned(),
{
    let after = s.taking(cpu, i);
    assert(!crate::runtime::pinning::off_pin(s.queue[i].cpu, s.queue[i].tid));
    lemma_current_keeps_pin(s, cpu, Some(s.queue[i].tid), s.queue[i].priority);
    let held = s.with_current(cpu, Some(s.queue[i].tid), s.queue[i].priority);
    assert(after.cpus == held.cpus);
    assert forall|a: int| 0 <= a < after.queue.len() implies !crate::runtime::pinning::off_pin(
        (#[trigger] after.queue[a]).cpu,
        after.queue[a].tid,
    ) by {
        let a0 = if a < i {
            a
        } else {
            a + 1
        };
        assert(after.queue[a] == s.queue[a0]);
    }
}

/// Dispatching keeps the pin.
pub proof fn law_dispatch_keeps_pin(s: Sched, cpu: CpuId)
    requires
        s.first_user_pinned(),
    ensures
        s.dispatched(cpu).first_user_pinned(),
{
    seqs::lemma_first_where(s.queue, crate::scheduler::waits_at(cpu, TaskPriority::High));
    seqs::lemma_first_where(s.queue, crate::scheduler::waits_at(cpu, TaskPriority::Normal));
    if s.wants_task(cpu) && s.next_on(cpu) < s.queue.len() {
        lemma_taking_keeps_pin(s, cpu, s.next_on(cpu));
    }
}

/// Putting the current task back, and a preemption, keep the pin.
pub proof fn law_preempt_keeps_pin(s: Sched, cpu: CpuId, preferred: u64)
    requires
        s.first_user_pinned(),
    ensures
        s.reenqueued(cpu).first_user_pinned(),
        s.preempted_for(cpu, preferred).first_user_pinned(),
{
    let back = s.reenqueued(cpu);
    let entry = crate::scheduler::entry_of(cpu, preferred);
    if s.current_on(cpu) is Some {
        let cleared = s.cleared(cpu);
        lemma_current_keeps_pin(s, cpu, None, s.cpus[cpu.0 as int].current_priority);
        assert(s.cpus[cpu.0 as int].current == s.current_on(cpu));
        assert(back.cpus == cleared.cpus);
        assert forall|i: int| 0 <= i < back.queue.len() implies !crate::runtime::pinning::off_pin(
            (#[trigger] back.queue[i]).cpu,
            back.queue[i].tid,
        ) by {
            if i < s.queue.len() {
                assert(back.queue[i] == s.queue[i]);
            }
        }
    }
    seqs::lemma_first_where(back.queue, entry);
    if s.online(cpu) {
        if seqs::first_where(back.queue, entry) < back.queue.len() {
            lemma_taking_keeps_pin(back, cpu, seqs::first_where(back.queue, entry));
        } else {
            law_dispatch_keeps_pin(back, cpu);
        }
    }
}

/// Placing a task and dispatching keeps the pin, unless it places the first user task elsewhere.
pub proof fn law_placement_keeps_pin(k: Kernel, cpu: CpuId, tid: u64)
    requires
        k.first_user_pinned(),
        !k.placement_breaks_pin(cpu, tid),
    ensures
        k.enqueued(cpu, tid).first_user_pinned(),
        k.enqueued(cpu, tid).sched.dispatched(cpu).first_user_pinned(),
{
    if let Ok(priority) = k.tasks.enqueue_policy(tid) {
        law_enqueue_keeps_pin(k.sched, cpu, tid, priority);
    }
    law_dispatch_keeps_pin(k.enqueued(cpu, tid).sched, cpu);
}

/// Changing a task, but for its number and its home, keeps the first user task's home.
proof fn lemma_slot_kept_at_home(tasks: Tasks, i: int, tcb: ThreadControlBlock)
    requires
        tasks.first_user_at_home(),
        0 <= i < tasks.tcbs.len(),
        tasks.tcbs[i] is Some,
        tcb.tid == tasks.tcbs[i]->0.tid,
        tcb.cpu_affinity == tasks.tcbs[i]->0.cpu_affinity,
    ensures
        tasks.with(i, tcb).first_user_at_home(),
{
    let after = tasks.with(i, tcb);
    let p = crate::task::has_tid(FIRST_USER_TID);
    let at = tasks.slot(FIRST_USER_TID);
    seqs::lemma_first_where(tasks.tcbs, p);
    assert forall|j: int| 0 <= j < at implies !p(#[trigger] after.tcbs[j]) by {
        assert(!p(tasks.tcbs[j]));
    }
    seqs::lemma_first_where_is(after.tcbs, p, at);
}

proof fn lemma_kept_at_home(tasks: Tasks, tid: u64, tcb: ThreadControlBlock)
    requires
        tasks.first_user_at_home(),
        tasks.find(tid) is Some,
        tcb.tid == tasks.find(tid)->0.tid,
        tcb.cpu_affinity == tasks.find(tid)->0.cpu_affinity,
    ensures
        tasks.with_task(tid, tcb).first_user_at_home(),
{
    seqs::lemma_first_where(tasks.tcbs, crate::task::has_tid(tid));
    lemma_slot_kept_at_home(tasks, tasks.slot(tid), tcb);
}

/// Where the first user task is at home on the bootstrap processor, no wake puts it elsewhere,
/// and every wake keeps the pin.
pub proof fn law_wake_keeps_pin(k: Kernel, cpu: CpuId, tid: u64)
    requires
        k.first_user_pinned(),
    ensures
        !k.wake_breaks_pin(cpu, tid),
        k.after_wake(cpu, tid).first_user_pinned(),
{
    if let Some(tcb) = k.tasks.find(tid) {
        lemma_kept_at_home(k.tasks, tid, crate::runtime::wake::woken_tcb(tcb));
        let priority = if tid == crate::ids::IDLE_TID {
            TaskPriority::Normal
        } else {
            tcb.class->0.spec_priority()
        };
        law_enqueue_keeps_pin(k.sched, k.wake_target(tcb), tid, priority);
    }
}

/// Completing a delivery, and letting a blocked sender go, wake no task elsewhere and keep the pin.
pub proof fn law_completion_keeps_pin(
    k: Kernel,
    cpu: CpuId,
    waiter: u64,
    e: int,
    wake: Option<ThreadId>,
    target: SenderWakeTarget,
)
    requires
        k.first_user_pinned(),
    ensures
        wake matches Some(w) ==> !k.settled(cpu, waiter, e, wake).wake_breaks_pin(cpu, w.0),
        k.after_completion(cpu, waiter, e, wake).first_user_pinned(),
        !k.send_answered(cpu, target).wake_breaks_pin(cpu, target.tid.0),
        k.after_sender_wake(cpu, target).first_user_pinned(),
{
    if let Some(tcb) = k.tasks.find(waiter) {
        lemma_kept_at_home(
            k.tasks,
            waiter,
            ThreadControlBlock { user_context: tcb.user_context.spec_returns_cleared(), ..tcb },
        );
    }
    let settled = k.settled(cpu, waiter, e, wake);
    assert(settled.sched.queue == k.sched.queue && settled.sched.cpus == k.sched.cpus);
    if let Some(w) = wake {
        law_wake_keeps_pin(settled, cpu, w.0);
    }
    let answered = k.send_answered(cpu, target);
    if k.tasks.send_is_blocked(target) {
        let i = k.tasks.exact_slot(target.tid.0, target.asid);
        seqs::lemma_first_where(
            k.tasks.tcbs,
            crate::task::is_incarnation(target.tid.0, target.asid),
        );
        lemma_slot_kept_at_home(k.tasks, i, answered.tasks.tcbs[i]->0);
    }
    assert(answered.sched.queue == k.sched.queue && answered.sched.cpus == k.sched.cpus);
    law_wake_keeps_pin(answered, cpu, target.tid.0);
}

/// Taking back a selection that is still current puts no task elsewhere and keeps the pin.
pub proof fn law_rollback_keeps_pin(k: Kernel, cpu: CpuId, tid: u64, restorable: bool)
    requires
        k.first_user_pinned(),
        k.sched.current_on(cpu) == Some(tid),
    ensures
        !k.rollback_breaks_pin(cpu, tid, restorable),
        crate::runtime::dispatch::after_owner_rollback(
            k,
            cpu,
            tid,
            restorable,
        ).first_user_pinned(),
{
    assert(k.sched.cpus[cpu.0 as int].current == Some(tid));
    let cleared = if k.sched.online(cpu) {
        Kernel { sched: k.sched.cleared(cpu), ..k }
    } else {
        k
    };
    lemma_current_keeps_pin(k.sched, cpu, None, k.sched.cpus[cpu.0 as int].current_priority);
    law_placement_keeps_pin(cleared, cpu, tid);
}

/// The wake of a task whose deadline passed, and that of a receiver, keep the pin.
pub proof fn law_other_wakes_keep_pin(k: Kernel, tid: u64)
    requires
        k.first_user_pinned(),
        k.tasks.find(tid) is Some,
    ensures
        k.timeout_woken(tid).first_user_pinned(),
        k.receiver_woken(tid).first_user_pinned(),
{
    let tcb = k.tasks.find(tid)->0;
    let woken = ThreadControlBlock { status: TaskStatus::Runnable, ..tcb };
    let priority = k.tasks.wake_priority(tid);
    lemma_kept_at_home(k.tasks, tid, woken);
    law_enqueue_keeps_pin(
        k.sched,
        k.wake_target(tcb),
        tid,
        k.tasks.with_task(tid, woken).wake_priority(tid),
    );
    match tcb.cpu_affinity {
        Some(home) => {
            law_enqueue_keeps_pin(k.sched, home, tid, priority);
        },
        None => {
            if let Some(home) = k.sched.balanced_cpu() {
                law_enqueue_keeps_pin(k.sched, home, tid, priority);
            }
        },
    }
}

/// Queueing a committed receiver at its home keeps the pin.
pub proof fn law_receiver_enqueue_keeps_pin(
    k: Kernel,
    tid: u64,
    affinity: Option<CpuId>,
    reconcile: bool,
)
    requires
        k.first_user_pinned(),
        tid == FIRST_USER_TID ==> affinity == Some(CpuId(BOOTSTRAP_CPU_ID)),
    ensures
        k.after_receiver_enqueue(tid, affinity, reconcile).first_user_pinned(),
{
    let cpu = k.commit_home(affinity);
    law_enqueue_keeps_pin(k.sched, cpu, tid, k.tasks.wake_priority(tid));
    let entry = crate::scheduler::entry_of(cpu, tid);
    let i = seqs::first_where(k.sched.queue, entry);
    seqs::lemma_first_where(k.sched.queue, entry);
    seqs::lemma_count_zero(k.sched.queue, entry);
    let after = k.sched.withdrawn(cpu, tid);
    assert forall|a: int| 0 <= a < after.queue.len() implies !crate::runtime::pinning::off_pin(
        (#[trigger] after.queue[a]).cpu,
        after.queue[a].tid,
    ) by {
        let a0 = if after.queue.len() == k.sched.queue.len() || a < i {
            a
        } else {
            a + 1
        };
        assert(after.queue[a] == k.sched.queue[a0]);
    }
}

proof fn lemma_woken_keep_pin(k: Kernel, cpu: CpuId, list: Seq<WokenTask>, n: int)
    requires
        0 <= n <= list.len(),
        k.first_user_pinned(),
        forall|j: int|
            0 <= j < list.len() && (#[trigger] list[j]).tid == FIRST_USER_TID ==> list[j].affinity
                == Some(CpuId(BOOTSTRAP_CPU_ID)),
    ensures
        k.woken_all_queued(cpu, list, n).first_user_pinned(),
    decreases n,
{
    if n > 0 {
        lemma_woken_keep_pin(k, cpu, list, n - 1);
        let before = k.woken_all_queued(cpu, list, n - 1);
        let woken = list[n - 1];
        let priority = before.tasks.wake_priority(woken.tid);
        if before.gets_home(woken) {
            seqs::lemma_first_where(before.tasks.tcbs, crate::task::has_tid(woken.tid));
            crate::task::lemma_replaced(
                before.tasks,
                woken.tid,
                ThreadControlBlock {
                    cpu_affinity: before.woken_home(cpu, woken),
                    ..before.tasks.find(woken.tid)->0
                },
            );
        }
        match before.woken_home(cpu, woken) {
            Some(home) => {
                law_enqueue_keeps_pin(before.sched, home, woken.tid, priority);
            },
            None => {
                if let Some(home) = before.sched.balanced_cpu() {
                    law_enqueue_keeps_pin(before.sched, home, woken.tid, priority);
                }
            },
        }
    }
}

/// Blocking on a futex word and waking from it keep the pin.
pub proof fn law_futex_keeps_pin(k: Kernel, cpu: CpuId, tid: u64, addr: u64, max_wake: u32)
    requires
        k.tasks.apart(),
        k.first_user_pinned(),
    ensures
        k.futex_blocked(cpu, tid, addr).first_user_pinned(),
        k.futex_awake(cpu, addr, max_wake).first_user_pinned(),
{
    if k.sched.online(cpu) {
        lemma_current_keeps_pin(k.sched, cpu, None, k.sched.cpus[cpu.0 as int].current_priority);
    }
    if let Some(tcb) = k.tasks.find(tid) {
        lemma_kept_at_home(
            k.tasks,
            tid,
            ThreadControlBlock {
                status: TaskStatus::Blocked(WaitReason::Futex(VirtAddr(addr))),
                ..tcb
            },
        );
    }
    let limit = crate::runtime::futex::wake_limit(max_wake);
    let list = k.futex_wake_list(addr, max_wake);
    let scanned = Kernel { tasks: k.tasks.futex_scanned(addr, limit), ..k };
    let home = crate::task::has_tid(FIRST_USER_TID);
    seqs::lemma_first_where(k.tasks.tcbs, home);
    crate::laws::waiting::lemma_scan_moves_none(k.tasks, addr, limit, FIRST_USER_TID);
    assert forall|j: int|
        0 <= j < list.len() && (#[trigger] list[j]).tid == FIRST_USER_TID implies list[j].affinity
        == Some(CpuId(BOOTSTRAP_CPU_ID)) by {
        let at = crate::laws::waiting::lemma_listed(
            k.tasks,
            addr,
            limit,
            k.tasks.tcbs.len() as int,
            j,
        );
        assert(home(k.tasks.tcbs[at]));
        assert(at == k.tasks.slot(FIRST_USER_TID));
    }
    lemma_woken_keep_pin(scanned, cpu, list, list.len() as int);
}

} // verus!
