//! What dispatching, preempting and placing do, said of the run queue and the processors.
use vstd::prelude::*;

use crate::ids::{CpuId, MAX_CPUS};
use crate::scheduler::{CpuSlot, DispatchSelection, RunEntry, Sched, TaskPriority};
use crate::seqs;

verus! {

/// Is entry `j` the one that `cpu` must take next: of those that wait for it, none of a higher
/// priority, and of the same priority none before it?
pub open spec fn is_next(s: Sched, cpu: CpuId, j: int) -> bool {
    &&& 0 <= j < s.queue.len()
    &&& s.queue[j].cpu == cpu
    &&& forall|m: int|
        0 <= m < s.queue.len() && (#[trigger] s.queue[m]).cpu == cpu ==> (s.queue[m].priority
            == TaskPriority::High ==> s.queue[j].priority == TaskPriority::High) && (m < j
            ==> s.queue[m].priority != s.queue[j].priority)
}

/// Is `cpu` online, with nothing or only the idle task current on it?
pub open spec fn is_free(s: Sched, cpu: CpuId) -> bool {
    &&& (cpu.0 as int) < s.cpus.len()
    &&& s.cpus[cpu.0 as int].online
    &&& s.cpus[cpu.0 as int].current is None || s.cpus[cpu.0 as int].current == Some(0u64)
}

/// The state in which entry `j` runs on `cpu`.
pub open spec fn running_entry(s: Sched, cpu: CpuId, j: int) -> Sched {
    Sched {
        queue: s.queue.remove(j),
        cpus: s.cpus.update(
            cpu.0 as int,
            CpuSlot {
                current: Some(s.queue[j].tid),
                current_priority: s.queue[j].priority,
                ..s.cpus[cpu.0 as int]
            },
        ),
        ..s
    }
}

pub(crate) proof fn lemma_next(s: Sched, cpu: CpuId, j: int)
    requires
        is_next(s, cpu, j),
    ensures
        s.next_on(cpu) == j,
{
    let high = crate::scheduler::waits_at(cpu, TaskPriority::High);
    let normal = crate::scheduler::waits_at(cpu, TaskPriority::Normal);
    if s.queue[j].priority == TaskPriority::High {
        assert forall|m: int| 0 <= m < j implies !high(#[trigger] s.queue[m]) by {}
        seqs::lemma_first_where_is(s.queue, high, j);
    } else {
        assert forall|m: int| 0 <= m < s.queue.len() implies !high(#[trigger] s.queue[m]) by {}
        seqs::lemma_first_where_is(s.queue, high, s.queue.len() as int);
        assert forall|m: int| 0 <= m < j implies !normal(#[trigger] s.queue[m]) by {}
        seqs::lemma_first_where_is(s.queue, normal, j);
    }
}

pub(crate) proof fn lemma_none_next(s: Sched, cpu: CpuId)
    requires
        forall|m: int| 0 <= m < s.queue.len() ==> (#[trigger] s.queue[m]).cpu != cpu,
    ensures
        s.next_on(cpu) == s.queue.len(),
{
    let high = crate::scheduler::waits_at(cpu, TaskPriority::High);
    let normal = crate::scheduler::waits_at(cpu, TaskPriority::Normal);
    seqs::lemma_first_where_is(s.queue, high, s.queue.len() as int);
    seqs::lemma_first_where_is(s.queue, normal, s.queue.len() as int);
}

/// A dispatch on a free processor takes the next entry that waits for it off the queue and makes
/// it current with its priority.
pub proof fn law_dispatch_runs_the_next(s: Sched, cpu: CpuId, j: int)
    requires
        is_free(s, cpu),
        is_next(s, cpu, j),
    ensures
        s.dispatched(cpu) == running_entry(s, cpu, j),
        s.selection_on(cpu) == (DispatchSelection::Dequeued { tid: s.queue[j].tid }),
{
    lemma_next(s, cpu, j);
}

/// A dispatch changes nothing on a processor that is not online, that runs a task, or that no entry
/// waits for; it selects the task that runs, if any.
pub proof fn law_dispatch_keeps_what_runs(s: Sched, cpu: CpuId)
    requires
        !is_free(s, cpu) || forall|m: int|
            0 <= m < s.queue.len() ==> (#[trigger] s.queue[m]).cpu != cpu,
    ensures
        s.dispatched(cpu) == s,
        s.selection_on(cpu) == (if (cpu.0 as int) < s.cpus.len() && s.cpus[cpu.0 as int].online {
            match s.cpus[cpu.0 as int].current {
                Some(tid) => DispatchSelection::ContinuedCurrent { tid },
                None => DispatchSelection::Idle,
            }
        } else {
            DispatchSelection::Idle
        }),
{
    if is_free(s, cpu) {
        lemma_none_next(s, cpu);
    }
}

/// Putting the current task back appends it to the queue with its priority and frees the
/// processor.
pub proof fn law_reenqueue_is_exact(s: Sched, cpu: CpuId)
    requires
        (cpu.0 as int) < s.cpus.len(),
    ensures
        s.reenqueued(cpu) == (match s.cpus[cpu.0 as int].current {
            Some(tid) => Sched {
                queue: s.queue.push(
                    RunEntry { cpu, tid, priority: s.cpus[cpu.0 as int].current_priority },
                ),
                cpus: s.cpus.update(
                    cpu.0 as int,
                    CpuSlot { current: None, ..s.cpus[cpu.0 as int] },
                ),
                ..s
            },
            None => s,
        }),
{
}

/// A preemption of an online processor puts its current task back; then the favoured task runs if
/// it waits there, and else whoever is next.
pub proof fn law_preempt_is_exact(s: Sched, cpu: CpuId, preferred: u64, j: int)
    requires
        (cpu.0 as int) < s.cpus.len(),
        s.cpus[cpu.0 as int].online,
        0 <= j < s.reenqueued(cpu).queue.len(),
        ({
            let back = s.reenqueued(cpu);
            ||| (back.queue[j].cpu == cpu && back.queue[j].tid == preferred && forall|m: int|
                0 <= m < j ==> (#[trigger] back.queue[m]).cpu != cpu || back.queue[m].tid
                    != preferred)
            ||| (is_next(back, cpu, j) && is_free(back, cpu) && forall|m: int|
                0 <= m < back.queue.len() ==> (#[trigger] back.queue[m]).cpu != cpu
                    || back.queue[m].tid != preferred)
        }),
    ensures
        s.preempted_for(cpu, preferred) == running_entry(s.reenqueued(cpu), cpu, j),
{
    let back = s.reenqueued(cpu);
    let p = crate::scheduler::entry_of(cpu, preferred);
    if back.queue[j].cpu == cpu && back.queue[j].tid == preferred {
        seqs::lemma_first_where_is(back.queue, p, j);
    } else {
        seqs::lemma_first_where_is(back.queue, p, back.queue.len() as int);
        lemma_next(back, cpu, j);
    }
}

/// Does processor `c` take tasks?
pub open spec fn takes_tasks(s: Sched, c: int) -> bool {
    0 <= c < s.cpus.len() && c < MAX_CPUS && s.cpus[c].online && !s.cpus[c].wake_only
}

proof fn lemma_least_loaded(s: Sched, n: nat)
    requires
        n <= s.cpus.len(),
        n <= MAX_CPUS,
    ensures
        s.least_loaded(n) is None <==> forall|c: int| 0 <= c < n ==> !takes_tasks(s, c),
        s.least_loaded(n) matches Some(best) ==> best.0 < n && takes_tasks(s, best.0 as int)
            && forall|c: int|
            0 <= c < n && #[trigger] takes_tasks(s, c) ==> s.runnable_on(best) <= s.runnable_on(
                CpuId(c as u8),
            ) && (c < best.0 ==> s.runnable_on(best) < s.runnable_on(CpuId(c as u8))),
    decreases n,
{
    if n > 0 {
        lemma_least_loaded(s, (n - 1) as nat);
        assert(takes_tasks(s, n - 1) == s.dispatches(n - 1));
    }
}

/// A task without a home goes to the processor with the fewest waiting tasks among those that take
/// tasks, and of several such to the first.
pub proof fn law_unpinned_goes_where_least_waits(s: Sched)
    ensures
        s.balanced_cpu() is None <==> forall|c: int| !#[trigger] takes_tasks(s, c),
        s.balanced_cpu() matches Some(best) ==> takes_tasks(s, best.0 as int) && forall|c: int| #[trigger]
            takes_tasks(s, c) ==> s.runnable_on(best) <= s.runnable_on(CpuId(c as u8)) && (c
                < best.0 ==> s.runnable_on(best) < s.runnable_on(CpuId(c as u8))),
{
    let n = if s.cpus.len() <= MAX_CPUS {
        s.cpus.len()
    } else {
        MAX_CPUS as nat
    };
    lemma_least_loaded(s, n);
    if s.balanced_cpu() is None {
        assert forall|c: int| !#[trigger] takes_tasks(s, c) by {}
    }
}

/// Withdrawing a task takes its one entry off the queue of the processor, and is refused where the
/// task runs, where it is not queued, and where it is queued twice.
pub proof fn law_withdraw_takes_the_one_entry(s: Sched, cpu: CpuId, tid: u64, j: int)
    requires
        (cpu.0 as int) < s.cpus.len(),
        0 <= j < s.queue.len(),
        s.queue[j].cpu == cpu,
        s.queue[j].tid == tid,
        s.cpus[cpu.0 as int].current != Some(tid),
        forall|m: int|
            0 <= m < s.queue.len() && m != j ==> (#[trigger] s.queue[m]).cpu != cpu
                || s.queue[m].tid != tid,
    ensures
        s.withdraw_verdict(cpu, tid) == crate::scheduler::WithdrawOutcome::Removed,
        s.withdrawn(cpu, tid) == (Sched { queue: s.queue.remove(j), ..s }),
{
    let p = crate::scheduler::entry_of(cpu, tid);
    let rest = s.queue.remove(j);
    seqs::lemma_count_remove(s.queue, j, p);
    assert forall|m: int| 0 <= m < rest.len() implies !p(#[trigger] rest[m]) by {
        if m < j {
            assert(rest[m] == s.queue[m]);
        } else {
            assert(rest[m] == s.queue[m + 1]);
        }
    }
    seqs::lemma_first_where(rest, p);
    seqs::lemma_count_zero(rest, p);
    seqs::lemma_first_where_is(s.queue, p, j);
}

} // verus!
