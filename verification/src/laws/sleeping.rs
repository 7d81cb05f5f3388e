//! Who is woken from a futex word, and where the woken go.
use vstd::prelude::*;

use crate::ids::{CpuId, VirtAddr};
use crate::kernel::Kernel;
use crate::runtime::futex::WokenTask;
use crate::scheduler::{CpuSlot, Sched, SchedulerTimer};
use crate::task::{TaskClass, TaskStatus, Tasks, ThreadControlBlock, WaitReason};

verus! {

/// Does the task in slot `i` wait on the word at `addr`?
pub open spec fn sleeps(tasks: Tasks, addr: u64, i: int) -> bool {
    &&& 0 <= i < tasks.tcbs.len()
    &&& tasks.tcbs[i] matches Some(tcb) && tcb.status == TaskStatus::Blocked(
        WaitReason::Futex(VirtAddr(addr)),
    )
}

/// The slots below `n` whose task waits on the word at `addr`.
pub open spec fn sleepers(tasks: Tasks, addr: u64, n: int) -> Set<int> {
    Set::new(|i: int| i < n && sleeps(tasks, addr, i))
}

proof fn lemma_sleepers(tasks: Tasks, addr: u64, limit: nat, n: int)
    requires
        0 <= n <= tasks.tcbs.len(),
    ensures
        sleepers(tasks, addr, n).finite(),
        tasks.futex_woken(addr, limit, n).len() == if sleepers(tasks, addr, n).len() < limit {
            sleepers(tasks, addr, n).len()
        } else {
            limit
        },
    decreases n,
{
    if n == 0 {
        assert(sleepers(tasks, addr, n) =~= Set::empty());
    } else {
        lemma_sleepers(tasks, addr, limit, n - 1);
        assert(crate::runtime::futex::waits_on_word(addr)(tasks.tcbs[n - 1]) == sleeps(
            tasks,
            addr,
            n - 1,
        ));
        if sleeps(tasks, addr, n - 1) {
            assert(sleepers(tasks, addr, n) =~= sleepers(tasks, addr, n - 1).insert(n - 1));
        } else {
            assert(sleepers(tasks, addr, n) =~= sleepers(tasks, addr, n - 1));
        }
    }
}

proof fn lemma_listed(tasks: Tasks, addr: u64, limit: nat, n: int, i: int)
    requires
        0 <= i < n <= tasks.tcbs.len(),
        sleeps(tasks, addr, i),
        sleepers(tasks, addr, i).len() < limit,
    ensures
        sleepers(tasks, addr, i).len() < tasks.futex_woken(addr, limit, n).len(),
        tasks.futex_woken(addr, limit, n)[sleepers(tasks, addr, i).len() as int] == (WokenTask {
            tid: tasks.tcbs[i]->0.tid.0,
            affinity: tasks.tcbs[i]->0.cpu_affinity,
        }),
    decreases n,
{
    lemma_sleepers(tasks, addr, limit, i);
    assert(crate::runtime::futex::waits_on_word(addr)(tasks.tcbs[n - 1]) == sleeps(
        tasks,
        addr,
        n - 1,
    ));
    if i < n - 1 {
        lemma_listed(tasks, addr, limit, n - 1, i);
    }
}

/// A wake reaches the first tasks that wait on the word, in the order of their slots and no more
/// than were asked for, nor than 512: each of those is runnable and listed with its home, and
/// every other task is as it was.
pub proof fn law_first_sleepers_wake(k: Kernel, addr: u64, max_wake: u32, i: int)
    requires
        0 <= i < k.tasks.tcbs.len(),
    ensures
        ({
            let limit = if max_wake <= 512 {
                max_wake as nat
            } else {
                512nat
            };
            let all = sleepers(k.tasks, addr, k.tasks.tcbs.len() as int);
            let before = sleepers(k.tasks, addr, i);
            let reached = sleeps(k.tasks, addr, i) && before.len() < limit;
            let list = k.futex_wake_list(addr, max_wake);
            let after = k.tasks.futex_scanned(addr, crate::runtime::futex::wake_limit(max_wake));
            &&& all.finite() && before.finite()
            &&& list.len() == if all.len() < limit {
                all.len()
            } else {
                limit
            }
            &&& after.tcbs.len() == k.tasks.tcbs.len()
            &&& after.tls_pending == k.tasks.tls_pending
            &&& after.tcbs[i] == if reached {
                Some(
                    ThreadControlBlock { status: TaskStatus::Runnable, ..k.tasks.tcbs[i]->0 },
                )
            } else {
                k.tasks.tcbs[i]
            }
            &&& reached ==> before.len() < list.len() && list[before.len() as int] == (WokenTask {
                tid: k.tasks.tcbs[i]->0.tid.0,
                affinity: k.tasks.tcbs[i]->0.cpu_affinity,
            })
        }),
{
    let limit = crate::runtime::futex::wake_limit(max_wake);
    let n = k.tasks.tcbs.len() as int;
    lemma_sleepers(k.tasks, addr, limit, n);
    lemma_sleepers(k.tasks, addr, limit, i);
    assert(crate::runtime::futex::waits_on_word(addr)(k.tasks.tcbs[i]) == sleeps(
        k.tasks,
        addr,
        i,
    ));
    if sleeps(k.tasks, addr, i) && sleepers(k.tasks, addr, i).len() < limit {
        lemma_listed(k.tasks, addr, limit, n, i);
    }
}

/// A woken task is queued on its home where it has one.  A driver without one gets the processor
/// that wakes it as its home; any other task goes where the least work waits.
pub proof fn law_woken_sleeper_is_placed(k: Kernel, cpu: CpuId, i: int)
    requires
        k.tasks.apart(),
        0 <= i < k.tasks.tcbs.len(),
        k.tasks.tcbs[i] is Some,
    ensures
        ({
            let tcb = k.tasks.tcbs[i]->0;
            let woken = WokenTask { tid: tcb.tid.0, affinity: tcb.cpu_affinity };
            let priority = crate::laws::waking::class_priority(tcb.class);
            let after = k.woken_queued(cpu, woken);
            &&& tcb.cpu_affinity is Some ==> after == (Kernel {
                sched: k.sched.enqueued(tcb.cpu_affinity->0, tcb.tid.0, priority),
                ..k
            })
            &&& tcb.cpu_affinity is None && tcb.class == Some(TaskClass::Driver) ==> after == (
            Kernel {
                sched: k.sched.enqueued(cpu, tcb.tid.0, priority),
                tasks: Tasks {
                    tcbs: k.tasks.tcbs.update(
                        i,
                        Some(ThreadControlBlock { cpu_affinity: Some(cpu), ..tcb }),
                    ),
                    ..k.tasks
                },
                ..k
            })
            &&& tcb.cpu_affinity is None && tcb.class != Some(TaskClass::Driver) ==> after == (
            Kernel { sched: k.sched.enqueued_balanced(tcb.tid.0, priority), ..k })
        }),
{
    crate::laws::slots::law_task_is_found_where_it_stands(k.tasks, i);
}

/// The woken are queued one after the other, in the order of the list.
pub proof fn law_woken_are_queued_in_order(k: Kernel, cpu: CpuId, addr: u64, max_wake: u32, n: int)
    requires
        0 < n,
    ensures
        ({
            let list = k.futex_wake_list(addr, max_wake);
            let scanned = Kernel {
                tasks: k.tasks.futex_scanned(addr, crate::runtime::futex::wake_limit(max_wake)),
                ..k
            };
            &&& k.futex_awake(cpu, addr, max_wake) == scanned.woken_all_queued(
                cpu,
                list,
                list.len() as int,
            )
            &&& scanned.woken_all_queued(cpu, list, 0) == scanned
            &&& scanned.woken_all_queued(cpu, list, n) == scanned.woken_all_queued(
                cpu,
                list,
                n - 1,
            ).woken_queued(cpu, list[n - 1])
        }),
{
}

/// A task that blocks on a word waits on exactly that word and gives its processor up; where
/// something was current there, the next quantum starts anew.  A task that is not there blocks
/// nobody.
pub proof fn law_task_falls_asleep(k: Kernel, cpu: CpuId, i: int, addr: u64)
    requires
        k.tasks.apart(),
        0 <= i < k.tasks.tcbs.len(),
        k.tasks.tcbs[i] is Some,
    ensures
        ({
            let tcb = k.tasks.tcbs[i]->0;
            let c = cpu.0 as int;
            let online = c < k.sched.cpus.len() && k.sched.cpus[c].online;
            let after = k.futex_blocked(cpu, tcb.tid.0, addr);
            &&& after.tasks == (Tasks {
                tcbs: k.tasks.tcbs.update(
                    i,
                    Some(
                        ThreadControlBlock {
                            status: TaskStatus::Blocked(WaitReason::Futex(VirtAddr(addr))),
                            ..tcb
                        },
                    ),
                ),
                ..k.tasks
            })
            &&& !online ==> after.sched == k.sched
            &&& online ==> after.sched == (Sched {
                cpus: k.sched.cpus.update(c, CpuSlot { current: None, ..k.sched.cpus[c] }),
                timer: SchedulerTimer {
                    quantum_used: if k.sched.cpus[c].current is Some {
                        0
                    } else {
                        k.sched.timer.quantum_used
                    },
                    ..k.sched.timer
                },
                ..k.sched
            })
            &&& after == (Kernel { tasks: after.tasks, sched: after.sched, ..k })
        }),
{
    crate::laws::slots::law_task_is_found_where_it_stands(k.tasks, i);
}

/// As many tasks wait on a word as sleep on it.
pub proof fn law_sleepers_are_counted(tasks: Tasks, addr: u64)
    ensures
        tasks.futex_waiters(addr) == sleepers(tasks, addr, tasks.tcbs.len() as int).len(),
{
    let p = crate::runtime::futex::waits_on_word(addr);
    crate::laws::admitting::law_count_is_how_many(tasks.tcbs, p);
    assert(crate::laws::admitting::places(tasks.tcbs, p) =~= sleepers(
        tasks,
        addr,
        tasks.tcbs.len() as int,
    ));
}

} // verus!
