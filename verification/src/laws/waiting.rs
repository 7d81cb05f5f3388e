//! Waiting on a futex word: who a wake reaches, and who it leaves alone.
use vstd::prelude::*;

use crate::ids::{CpuId, VirtAddr};
use crate::kernel::Kernel;
use crate::runtime::futex::WokenTask;
use crate::scheduler::{Sched, TaskPriority, MAX_RUN_QUEUE};
use crate::seqs;
use crate::task::{TaskStatus, Tasks, ThreadControlBlock, WaitReason};

verus! {

impl Tasks {
    /// Does `tid` wait on the futex word at `addr`?
    pub open spec fn waits_for_word(self, tid: u64, addr: u64) -> bool {
        self.find(tid) is Some && self.find(tid)->0.status == TaskStatus::Blocked(
            WaitReason::Futex(VirtAddr(addr)),
        )
    }

    /// Is `tid` the one task that waits on the futex word at `addr`?
    pub open spec fn sole_waiter(self, tid: u64, addr: u64) -> bool {
        self.waits_for_word(tid, addr) && self.futex_waiters(addr) == 1
    }
}

impl Sched {
    /// Has the run queue of `cpu` room for a task that it does not hold?
    pub open spec fn has_room(self, cpu: CpuId) -> bool {
        self.online(cpu) && !self.cpus[cpu.0 as int].wake_only && self.runnable_on(cpu)
            < MAX_RUN_QUEUE
    }
}

impl Kernel {
    /// Where a task goes when it is queued: to its home, or where the least work waits.
    pub open spec fn queue_of(self, tid: u64) -> Option<CpuId> {
        match self.tasks.affinity_of(tid) {
            Some(home) => Some(home),
            None => self.sched.balanced_cpu(),
        }
    }

    /// Is `tid` runnable here, and queued exactly if its run queue had room before?
    pub open spec fn runs_again(self, before: Sched, tid: u64) -> bool {
        &&& self.tasks.find(tid) is Some
        &&& self.tasks.find(tid)->0.status == TaskStatus::Runnable
        &&& match (Kernel { sched: before, ..self }).queue_of(tid) {
            Some(home) => self.sched.holds(home, tid) == before.has_room(home)
                && self.sched.present(tid) == before.has_room(home),
            None => self.sched == before,
        }
    }
}

/// Where a listed task stands, and that it waited.
pub(crate) proof fn lemma_listed(tasks: Tasks, addr: u64, limit: nat, n: int, j: int) -> (i: int)
    requires
        0 <= n <= tasks.tcbs.len(),
        0 <= j < tasks.futex_woken(addr, limit, n).len(),
    ensures
        0 <= i < n,
        crate::runtime::futex::waits_on_word(addr)(tasks.tcbs[i]),
        tasks.futex_woken(addr, limit, i).len() == j,
        j < limit,
        tasks.futex_woken(addr, limit, n)[j] == (WokenTask {
            tid: tasks.tcbs[i]->0.tid.0,
            affinity: tasks.tcbs[i]->0.cpu_affinity,
        }),
    decreases n,
{
    if n > 0 && j < tasks.futex_woken(addr, limit, n - 1).len() {
        lemma_listed(tasks, addr, limit, n - 1, j)
    } else {
        n - 1
    }
}

/// A waiting slot that the wake reaches is listed.
proof fn lemma_reached_is_listed(tasks: Tasks, addr: u64, limit: nat, i: int, n: int)
    requires
        0 <= i < n <= tasks.tcbs.len(),
        crate::runtime::futex::waits_on_word(addr)(tasks.tcbs[i]),
        tasks.futex_woken(addr, limit, i).len() < limit,
    ensures
        tasks.futex_woken(addr, limit, i).len() < tasks.futex_woken(addr, limit, n).len(),
        tasks.futex_woken(addr, limit, n)[tasks.futex_woken(addr, limit, i).len() as int].tid
            == tasks.tcbs[i]->0.tid.0,
    decreases n,
{
    if i < n - 1 {
        lemma_reached_is_listed(tasks, addr, limit, i, n - 1);
    }
}

/// A wake moves no task.
pub(crate) proof fn lemma_scan_moves_none(tasks: Tasks, addr: u64, limit: nat, tid: u64)
    ensures
        tasks.futex_scanned(addr, limit).slot(tid) == tasks.slot(tid),
        tasks.futex_scanned(addr, limit).find(tid) is Some <==> tasks.find(tid) is Some,
{
    let after = tasks.futex_scanned(addr, limit);
    let p = crate::task::has_tid(tid);
    seqs::lemma_first_where(tasks.tcbs, p);
    let i = tasks.slot(tid);
    assert forall|j: int| 0 <= j < i implies !p(#[trigger] after.tcbs[j]) by {
        assert(!p(tasks.tcbs[j]));
    }
    seqs::lemma_first_where_is(after.tcbs, p, i);
}

/// Queueing a woken task changes at most a home: no task moves or changes its status, and
/// only that task can join a queue.
proof fn lemma_queueing_keeps(k: Kernel, cpu: CpuId, woken: WokenTask, tid: u64, word: u64)
    ensures
        k.woken_queued(cpu, woken).tasks.slot(tid) == k.tasks.slot(tid),
        k.woken_queued(cpu, woken).tasks.find(tid) is Some <==> k.tasks.find(tid) is Some,
        k.tasks.find(tid) is Some ==> k.woken_queued(cpu, woken).tasks.find(tid)->0
            == (ThreadControlBlock {
            cpu_affinity: k.woken_queued(cpu, woken).tasks.find(tid)->0.cpu_affinity,
            ..k.tasks.find(tid)->0
        }),
        k.woken_queued(cpu, woken).tasks.futex_waiters(word) == k.tasks.futex_waiters(word),
        woken.tid != tid ==> k.woken_queued(cpu, woken).sched.present(tid) == k.sched.present(
            tid,
        ),
{
    let after = k.woken_queued(cpu, woken);
    let p = crate::runtime::futex::waits_on_word(word);
    if k.gets_home(woken) {
        seqs::lemma_first_where(k.tasks.tcbs, crate::task::has_tid(woken.tid));
        let tcb = ThreadControlBlock {
            cpu_affinity: k.woken_home(cpu, woken),
            ..k.tasks.find(woken.tid)->0
        };
        crate::task::lemma_replaced(k.tasks, woken.tid, tcb);
        let i = k.tasks.slot(woken.tid);
        seqs::lemma_count_update(k.tasks.tcbs, i, Some(tcb), p);
        assert(p(Some(tcb)) == p(k.tasks.tcbs[i]));
    }
    if woken.tid != tid {
        let q = crate::scheduler::names_tid(tid);
        seqs::lemma_first_where(k.sched.queue, q);
        seqs::lemma_first_where(after.sched.queue, q);
        if seqs::any_where(k.sched.queue, q) {
            let f = seqs::first_where(k.sched.queue, q);
            assert(q(after.sched.queue[f]));
        }
        if seqs::any_where(after.sched.queue, q) {
            let f = seqs::first_where(after.sched.queue, q);
            assert(q(after.sched.queue[f]));
            assert(f < k.sched.queue.len());
            assert(q(k.sched.queue[f]));
        }
    }
}

/// The same of queueing the first `n` tasks of a list.
proof fn lemma_queueing_all_keeps(
    k: Kernel,
    cpu: CpuId,
    list: Seq<WokenTask>,
    n: int,
    tid: u64,
    word: u64,
)
    requires
        0 <= n <= list.len(),
    ensures
        k.woken_all_queued(cpu, list, n).tasks.slot(tid) == k.tasks.slot(tid),
        k.woken_all_queued(cpu, list, n).tasks.find(tid) is Some <==> k.tasks.find(tid) is Some,
        k.tasks.find(tid) is Some ==> k.woken_all_queued(cpu, list, n).tasks.find(tid)->0
            == (ThreadControlBlock {
            cpu_affinity: k.woken_all_queued(cpu, list, n).tasks.find(tid)->0.cpu_affinity,
            ..k.tasks.find(tid)->0
        }),
        k.woken_all_queued(cpu, list, n).tasks.futex_waiters(word) == k.tasks.futex_waiters(word),
        (forall|j: int| 0 <= j < n ==> (#[trigger] list[j]).tid != tid)
            ==> k.woken_all_queued(cpu, list, n).sched.present(tid) == k.sched.present(tid),
    decreases n,
{
    if n > 0 {
        lemma_queueing_all_keeps(k, cpu, list, n - 1, tid, word);
        lemma_queueing_keeps(
            k.woken_all_queued(cpu, list, n - 1),
            cpu,
            list[n - 1],
            tid,
            word,
        );
    }
}

/// A wake makes exactly the tasks that it lists runnable: of every other task the status
/// stays as it was.
pub proof fn law_wake_reaches_the_listed(k: Kernel, cpu: CpuId, addr: u64, max_wake: u32, tid: u64)
    requires
        k.tasks.apart(),
        k.tasks.find(tid) is Some,
    ensures
        k.futex_awake(cpu, addr, max_wake).tasks.find(tid) is Some,
        k.futex_awake(cpu, addr, max_wake).tasks.find(tid)->0.status == (if exists|j: int|
            0 <= j < k.futex_wake_list(addr, max_wake).len() && (#[trigger] k.futex_wake_list(
                addr,
                max_wake,
            )[j]).tid == tid {
            TaskStatus::Runnable
        } else {
            k.tasks.find(tid)->0.status
        }),
{
    let limit = crate::runtime::futex::wake_limit(max_wake);
    let n = k.tasks.tcbs.len() as int;
    let list = k.futex_wake_list(addr, max_wake);
    let scanned = Kernel { tasks: k.tasks.futex_scanned(addr, limit), ..k };
    seqs::lemma_first_where(k.tasks.tcbs, crate::task::has_tid(tid));
    lemma_scan_moves_none(k.tasks, addr, limit, tid);
    lemma_queueing_all_keeps(scanned, cpu, list, list.len() as int, tid, addr);
    let i = k.tasks.slot(tid);
    if crate::runtime::futex::waits_on_word(addr)(k.tasks.tcbs[i]) && k.tasks.futex_woken(
        addr,
        limit,
        i,
    ).len() < limit {
        lemma_reached_is_listed(k.tasks, addr, limit, i, n);
        let at = k.tasks.futex_woken(addr, limit, i).len() as int;
        assert(list[at].tid == tid);
    } else {
        assert forall|j: int| 0 <= j < list.len() implies (#[trigger] list[j]).tid != tid by {
            let at = lemma_listed(k.tasks, addr, limit, n, j);
            assert(at != i);
        }
    }
}

/// A wake that serves as many tasks as wait makes every one of them runnable.
pub proof fn law_waiting_task_runs(k: Kernel, cpu: CpuId, addr: u64, max_wake: u32, tid: u64)
    requires
        k.tasks.apart(),
        k.tasks.waits_for_word(tid, addr),
        k.tasks.futex_waiters(addr) <= crate::runtime::futex::wake_limit(max_wake),
    ensures
        k.futex_awake(cpu, addr, max_wake).tasks.find(tid) is Some,
        k.futex_awake(cpu, addr, max_wake).tasks.find(tid)->0.status == TaskStatus::Runnable,
{
    let limit = crate::runtime::futex::wake_limit(max_wake);
    let n = k.tasks.tcbs.len() as int;
    let i = k.tasks.slot(tid);
    seqs::lemma_first_where(k.tasks.tcbs, crate::task::has_tid(tid));
    crate::runtime::futex::law_wake_count(k, addr, max_wake);
    law_wake_reaches_the_listed(k, cpu, addr, max_wake, tid);
    assert(crate::runtime::futex::waits_on_word(addr)(k.tasks.tcbs[i]));
    crate::runtime::futex::law_wake_is_once(k, addr, max_wake);
    let left = k.tasks.futex_scanned(addr, limit);
    seqs::lemma_first_where(left.tcbs, crate::runtime::futex::waits_on_word(addr));
    seqs::lemma_count_zero(left.tcbs, crate::runtime::futex::waits_on_word(addr));
    assert(!crate::runtime::futex::waits_on_word(addr)(left.tcbs[i]));
    assert(k.tasks.futex_woken(addr, limit, i).len() < limit);
    lemma_reached_is_listed(k.tasks, addr, limit, i, n);
    let at = k.tasks.futex_woken(addr, limit, i).len() as int;
    assert(k.futex_wake_list(addr, max_wake)[at].tid == tid);
}

/// A wake of one word is none of another: who waits there goes on waiting and joins no
/// queue, and as many tasks wait there as before.
pub proof fn law_other_word_sleeps_on(
    k: Kernel,
    cpu: CpuId,
    addr: u64,
    other: u64,
    max_wake: u32,
    tid: u64,
)
    requires
        k.tasks.apart(),
        k.tasks.waits_for_word(tid, addr),
        other != addr,
    ensures
        k.futex_awake(cpu, other, max_wake).tasks.waits_for_word(tid, addr),
        k.futex_awake(cpu, other, max_wake).tasks.futex_waiters(addr) == k.tasks.futex_waiters(
            addr,
        ),
        k.futex_awake(cpu, other, max_wake).sched.present(tid) == k.sched.present(tid),
{
    let limit = crate::runtime::futex::wake_limit(max_wake);
    let n = k.tasks.tcbs.len() as int;
    let list = k.futex_wake_list(other, max_wake);
    let scanned = Kernel { tasks: k.tasks.futex_scanned(other, limit), ..k };
    let i = k.tasks.slot(tid);
    seqs::lemma_first_where(k.tasks.tcbs, crate::task::has_tid(tid));
    law_wake_reaches_the_listed(k, cpu, other, max_wake, tid);
    assert forall|j: int| 0 <= j < list.len() implies (#[trigger] list[j]).tid != tid by {
        let at = lemma_listed(k.tasks, other, limit, n, j);
        assert(at != i);
    }
    lemma_queueing_all_keeps(scanned, cpu, list, list.len() as int, tid, addr);
    lemma_other_word_count(k.tasks, addr, other, limit, n);
    assert(k.tasks.tcbs.take(n) =~= k.tasks.tcbs);
    assert(scanned.tasks.tcbs.take(n) =~= scanned.tasks.tcbs);
}

proof fn lemma_other_word_count(tasks: Tasks, addr: u64, other: u64, limit: nat, n: int)
    requires
        0 <= n <= tasks.tcbs.len(),
        other != addr,
    ensures
        seqs::count_where(
            tasks.futex_scanned(other, limit).tcbs.take(n),
            crate::runtime::futex::waits_on_word(addr),
        ) == seqs::count_where(tasks.tcbs.take(n), crate::runtime::futex::waits_on_word(addr)),
    decreases n,
{
    let after = tasks.futex_scanned(other, limit);
    let p = crate::runtime::futex::waits_on_word(addr);
    if n > 0 {
        lemma_other_word_count(tasks, addr, other, limit, n - 1);
        seqs::lemma_count_step(tasks.tcbs, p, n - 1);
        seqs::lemma_count_step(after.tcbs, p, n - 1);
        assert(p(after.tcbs[n - 1]) == p(tasks.tcbs[n - 1]));
    } else {
        assert(after.tcbs.take(0) =~= tasks.tcbs.take(0));
    }
}

/// A wake leaves as many tasks waiting as it did not reach.
pub proof fn law_wake_leaves_the_rest(k: Kernel, cpu: CpuId, addr: u64, max_wake: u32)
    ensures
        k.futex_awake(cpu, addr, max_wake).tasks.futex_waiters(addr) + k.futex_wake_list(
            addr,
            max_wake,
        ).len() == k.tasks.futex_waiters(addr),
{
    let limit = crate::runtime::futex::wake_limit(max_wake);
    let list = k.futex_wake_list(addr, max_wake);
    let scanned = Kernel { tasks: k.tasks.futex_scanned(addr, limit), ..k };
    crate::runtime::futex::law_wake_is_once(k, addr, max_wake);
    lemma_queueing_all_keeps(scanned, cpu, list, list.len() as int, 0, addr);
}

/// A wake of a word on which no task waits reaches none and changes nothing.
pub proof fn law_idle_wake_changes_nothing(k: Kernel, cpu: CpuId, addr: u64, max_wake: u32)
    requires
        k.tasks.futex_waiters(addr) == 0,
    ensures
        k.futex_wake_list(addr, max_wake).len() == 0,
        k.futex_awake(cpu, addr, max_wake) == k,
{
    let p = crate::runtime::futex::waits_on_word(addr);
    crate::runtime::futex::law_wake_count(k, addr, max_wake);
    seqs::lemma_first_where(k.tasks.tcbs, p);
    seqs::lemma_count_zero(k.tasks.tcbs, p);
    assert forall|i: int| 0 <= i < k.tasks.tcbs.len() implies !p(#[trigger] k.tasks.tcbs[i]) by {}
    assert(k.tasks.futex_scanned(addr, crate::runtime::futex::wake_limit(max_wake)).tcbs
        =~= k.tasks.tcbs);
}

/// Where no other task waits on a word, a task that blocks on it is the one that waits.
pub proof fn law_blocked_task_waits(k: Kernel, cpu: CpuId, tid: u64, addr: u64)
    requires
        k.tasks.find(tid) is Some,
        forall|i: int|
            0 <= i < k.tasks.tcbs.len() && i != k.tasks.slot(tid)
                ==> !crate::runtime::futex::waits_on_word(addr)(#[trigger] k.tasks.tcbs[i]),
    ensures
        k.futex_blocked(cpu, tid, addr).tasks.sole_waiter(tid, addr),
        k.futex_blocked(cpu, tid, addr).sched.present(tid) == k.sched.given_up(cpu).present(tid),
{
    let after = k.futex_blocked(cpu, tid, addr);
    let p = crate::runtime::futex::waits_on_word(addr);
    let i = k.tasks.slot(tid);
    seqs::lemma_first_where(k.tasks.tcbs, crate::task::has_tid(tid));
    let tcb = ThreadControlBlock {
        status: TaskStatus::Blocked(WaitReason::Futex(VirtAddr(addr))),
        ..k.tasks.find(tid)->0
    };
    crate::task::lemma_replaced(k.tasks, tid, tcb);
    seqs::lemma_count_remove(after.tasks.tcbs, i, p);
    let rest = after.tasks.tcbs.remove(i);
    assert forall|j: int| 0 <= j < rest.len() implies !p(#[trigger] rest[j]) by {
        if j < i {
            assert(rest[j] == k.tasks.tcbs[j]);
        } else {
            assert(rest[j] == k.tasks.tcbs[j + 1]);
        }
    }
    seqs::lemma_first_where(rest, p);
    seqs::lemma_count_zero(rest, p);
    assert(p(after.tasks.tcbs[i]));
}

/// The first wake of a word on which one task waits ends its wait: the wake counts it alone,
/// the task is runnable, and it is queued on its home, or where the least work waits, if
/// there is room. A second wake counts none and changes nothing.
pub proof fn law_first_wake_ends_the_wait(k: Kernel, cpu: CpuId, tid: u64, addr: u64, again: u32)
    requires
        k.tasks.apart(),
        k.tasks.sole_waiter(tid, addr),
        !k.sched.present(tid),
    ensures
        k.futex_wake_list(addr, 1).len() == 1,
        k.futex_wake_list(addr, 1)[0].tid == tid,
        k.futex_awake(cpu, addr, 1).runs_again(k.sched, tid),
        k.futex_awake(cpu, addr, 1).futex_wake_list(addr, again).len() == 0,
        k.futex_awake(cpu, addr, 1).futex_awake(cpu, addr, again) == k.futex_awake(cpu, addr, 1),
{
    let after = k.futex_awake(cpu, addr, 1);
    let n = k.tasks.tcbs.len() as int;
    let list = k.futex_wake_list(addr, 1);
    let scanned = Kernel { tasks: k.tasks.futex_scanned(addr, 1), ..k };
    let i = k.tasks.slot(tid);
    seqs::lemma_first_where(k.tasks.tcbs, crate::task::has_tid(tid));
    assert(crate::runtime::futex::wake_limit(1) == 1);
    crate::runtime::futex::law_wake_count(k, addr, 1);
    law_waiting_task_runs(k, cpu, addr, 1, tid);
    law_wake_reaches_the_listed(k, cpu, addr, 1, tid);
    assert(exists|j: int| 0 <= j < list.len() && (#[trigger] list[j]).tid == tid);
    assert(list[0].tid == tid);
    let at = lemma_listed(k.tasks, addr, 1, n, 0);
    assert(at == i);
    law_wake_leaves_the_rest(k, cpu, addr, 1);
    law_idle_wake_changes_nothing(after, cpu, addr, again);
    lemma_scan_moves_none(k.tasks, addr, 1, tid);
    reveal_with_fuel(Kernel::woken_all_queued, 2);
    assert(after == scanned.woken_queued(cpu, list[0]));
    lemma_queueing_keeps(scanned, cpu, list[0], tid, addr);
    assert(scanned.tasks.find(tid)->0.cpu_affinity == list[0].affinity);
    assert(after.tasks.affinity_of(tid) == scanned.woken_home(cpu, list[0])) by {
        if scanned.gets_home(list[0]) {
            crate::task::lemma_replaced(
                scanned.tasks,
                tid,
                ThreadControlBlock {
                    cpu_affinity: scanned.woken_home(cpu, list[0]),
                    ..scanned.tasks.find(tid)->0
                },
            );
        }
    }
    match after.tasks.affinity_of(tid) {
        Some(home) => {
            lemma_joins(k.sched, home, tid, scanned.tasks.wake_priority(tid));
        },
        None => {
            if k.sched.balanced_cpu() is Some {
                lemma_joins(
                    k.sched,
                    k.sched.balanced_cpu()->0,
                    tid,
                    scanned.tasks.wake_priority(tid),
                );
            }
        },
    }
}

/// A task that no processor holds joins a queue exactly when there is room.
proof fn lemma_joins(s: Sched, cpu: CpuId, tid: u64, priority: TaskPriority)
    requires
        !s.present(tid),
    ensures
        s.enqueued(cpu, tid, priority).present(tid) == s.has_room(cpu),
        s.enqueued(cpu, tid, priority).holds(cpu, tid) == s.has_room(cpu),
{
    let after = s.enqueued(cpu, tid, priority);
    let p = crate::scheduler::entry_of(cpu, tid);
    let q = crate::scheduler::names_tid(tid);
    let r = crate::scheduler::runs_tid(tid);
    seqs::lemma_first_where(s.queue, p);
    seqs::lemma_first_where(s.queue, q);
    seqs::lemma_first_where(s.cpus, r);
    seqs::lemma_first_where(after.queue, p);
    seqs::lemma_first_where(after.queue, q);
    if seqs::any_where(s.queue, p) {
        assert(q(s.queue[seqs::first_where(s.queue, p)]));
    }
    if s.known(cpu) && s.current_on(cpu) == Some(tid) {
        assert(r(s.cpus[cpu.0 as int]));
    }
    assert(!s.holds(cpu, tid));
    if s.has_room(cpu) {
        assert(p(after.queue[s.queue.len() as int]));
        assert(q(after.queue[s.queue.len() as int]));
    }
}

proof fn lemma_queueing_keeps_apart(k: Kernel, cpu: CpuId, list: Seq<WokenTask>, n: int)
    requires
        k.tasks.apart(),
    ensures
        k.woken_all_queued(cpu, list, n).tasks.apart(),
    decreases n,
{
    if n > 0 {
        lemma_queueing_keeps_apart(k, cpu, list, n - 1);
        let before = k.woken_all_queued(cpu, list, n - 1);
        let woken = list[n - 1];
        if before.gets_home(woken) {
            crate::task::lemma_task_kept_apart(
                before.tasks,
                woken.tid,
                ThreadControlBlock {
                    cpu_affinity: before.woken_home(cpu, woken),
                    ..before.tasks.find(woken.tid)->0
                },
            );
        }
    }
}

/// What becomes of a task that blocks on a word while it runs on `cpu` and is held nowhere
/// else, where no other task waits: a wake of another word leaves it blocked and unqueued,
/// and the first wake of its word, with or without the other before it, ends its wait.  A second
/// wake of its word counts none and changes nothing.
pub proof fn law_block_then_wake(
    k: Kernel,
    cpu: CpuId,
    waker: CpuId,
    tid: u64,
    addr: u64,
    other: u64,
    max_wake: u32,
)
    requires
        k.tasks.apart(),
        k.tasks.find(tid) is Some,
        forall|i: int|
            0 <= i < k.tasks.tcbs.len() && i != k.tasks.slot(tid)
                ==> !crate::runtime::futex::waits_on_word(addr)(#[trigger] k.tasks.tcbs[i]),
        !k.sched.given_up(cpu).present(tid),
        other != addr,
    ensures
        k.futex_blocked(cpu, tid, addr).tasks.sole_waiter(tid, addr),
        !k.futex_blocked(cpu, tid, addr).sched.present(tid),
        k.futex_blocked(cpu, tid, addr).futex_awake(waker, other, max_wake).tasks.sole_waiter(
            tid,
            addr,
        ),
        !k.futex_blocked(cpu, tid, addr).futex_awake(waker, other, max_wake).sched.present(tid),
        k.futex_blocked(cpu, tid, addr).futex_wake_list(addr, 1).len() == 1,
        k.futex_blocked(cpu, tid, addr).futex_awake(waker, addr, 1).runs_again(
            k.futex_blocked(cpu, tid, addr).sched,
            tid,
        ),
        k.futex_blocked(cpu, tid, addr).futex_awake(waker, addr, 1).futex_wake_list(addr, 1).len()
            == 0,
        k.futex_blocked(cpu, tid, addr).futex_awake(waker, addr, 1).futex_awake(waker, addr, 1)
            == k.futex_blocked(cpu, tid, addr).futex_awake(waker, addr, 1),
        k.futex_blocked(cpu, tid, addr).futex_awake(waker, other, max_wake).futex_wake_list(
            addr,
            1,
        ).len() == 1,
        k.futex_blocked(cpu, tid, addr).futex_awake(waker, other, max_wake).futex_awake(
            waker,
            addr,
            1,
        ).runs_again(
            k.futex_blocked(cpu, tid, addr).futex_awake(waker, other, max_wake).sched,
            tid,
        ),
{
    let blocked = k.futex_blocked(cpu, tid, addr);
    let passed = blocked.futex_awake(waker, other, max_wake);
    law_blocked_task_waits(k, cpu, tid, addr);
    assert(blocked.tasks.apart()) by {
        crate::task::lemma_task_kept_apart(
            k.tasks,
            tid,
            ThreadControlBlock {
                status: TaskStatus::Blocked(WaitReason::Futex(VirtAddr(addr))),
                ..k.tasks.find(tid)->0
            },
        );
    }
    law_other_word_sleeps_on(blocked, waker, addr, other, max_wake, tid);
    law_first_wake_ends_the_wait(blocked, waker, tid, addr, 1);
    let list = blocked.futex_wake_list(other, max_wake);
    let scanned = Kernel {
        tasks: blocked.tasks.futex_scanned(other, crate::runtime::futex::wake_limit(max_wake)),
        ..blocked
    };
    lemma_queueing_keeps_apart(scanned, waker, list, list.len() as int);
    law_first_wake_ends_the_wait(passed, waker, tid, addr, 1);
}

} // verus!
