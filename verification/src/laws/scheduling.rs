//! Laws of scheduling: nothing is queued twice, nothing gets lost.
use vstd::prelude::*;

use crate::ids::CpuId;
use crate::kernel::Kernel;
use crate::runtime::dispatch::{CpuDispatch, DispatchDisposition, DispatchMarkOutcome};
use crate::scheduler::{DispatchSelection, Sched, TaskPriority};
use crate::seqs;
use crate::task::{TaskStatus, TaskTransition, ThreadControlBlock};

verus! {

broadcast use crate::runtime::dispatch::lemma_token_parts;

impl Sched {
    /// No task waits twice for one processor, and none waits where it is current.
    pub open spec fn apart(self) -> bool {
        &&& forall|i: int, j: int|
            0 <= i < j < self.queue.len() && (#[trigger] self.queue[i]).cpu == (
            #[trigger] self.queue[j]).cpu ==> self.queue[i].tid != self.queue[j].tid
        &&& forall|i: int|
            0 <= i < self.queue.len() ==> self.current_on((#[trigger] self.queue[i]).cpu) != Some(
                self.queue[i].tid,
            )
    }
}

/// Queueing a task keeps tasks apart.
pub proof fn law_enqueue_keeps_apart(s: Sched, cpu: CpuId, tid: u64, priority: TaskPriority)
    requires
        s.apart(),
    ensures
        s.enqueued(cpu, tid, priority).apart(),
{
    seqs::lemma_first_where(s.queue, crate::scheduler::entry_of(cpu, tid));
    let after = s.enqueued(cpu, tid, priority);
    if s.enqueue_verdict(cpu, tid) is Ok {
        assert forall|i: int, j: int|
            0 <= i < j < after.queue.len() && (#[trigger] after.queue[i]).cpu == (
            #[trigger] after.queue[j]).cpu implies after.queue[i].tid != after.queue[j].tid by {
            assert(after.queue[i] == s.queue[i]);
            if j == s.queue.len() {
                assert(!crate::scheduler::entry_of(cpu, tid)(s.queue[i]));
            } else {
                assert(after.queue[j] == s.queue[j]);
            }
        }
        assert forall|i: int| 0 <= i < after.queue.len() implies after.current_on(
            (#[trigger] after.queue[i]).cpu,
        ) != Some(after.queue[i].tid) by {
            if i < s.queue.len() {
                assert(after.queue[i] == s.queue[i]);
            }
        }
    }
}

/// Taking an entry of `cpu` off the queue and making it current keeps tasks apart.
proof fn lemma_taking_keeps_apart(s: Sched, cpu: CpuId, i: int)
    requires
        s.apart(),
        s.known(cpu),
        0 <= i < s.queue.len(),
        s.queue[i].cpu == cpu,
    ensures
        s.taking(cpu, i).apart(),
{
    let after = s.taking(cpu, i);
    assert forall|a: int, b: int|
        0 <= a < b < after.queue.len() && (#[trigger] after.queue[a]).cpu == (
        #[trigger] after.queue[b]).cpu implies after.queue[a].tid != after.queue[b].tid by {
        let a0 = if a < i {
            a
        } else {
            a + 1
        };
        let b0 = if b < i {
            b
        } else {
            b + 1
        };
        assert(after.queue[a] == s.queue[a0] && after.queue[b] == s.queue[b0]);
    }
    assert forall|a: int| 0 <= a < after.queue.len() implies after.current_on(
        (#[trigger] after.queue[a]).cpu,
    ) != Some(after.queue[a].tid) by {
        let a0 = if a < i {
            a
        } else {
            a + 1
        };
        assert(after.queue[a] == s.queue[a0]);
        if s.queue[a0].cpu == cpu {
            if a0 < i {
                assert(s.queue[a0].tid != s.queue[i].tid);
            } else {
                assert(s.queue[i].tid != s.queue[a0].tid);
            }
        }
    }
}

/// Putting the current task back keeps tasks apart.
pub proof fn law_reenqueue_keeps_apart(s: Sched, cpu: CpuId)
    requires
        s.apart(),
    ensures
        s.reenqueued(cpu).apart(),
{
    let after = s.reenqueued(cpu);
    if s.current_on(cpu) is Some {
        let tid = s.current_on(cpu)->0;
        assert forall|a: int, b: int|
            0 <= a < b < after.queue.len() && (#[trigger] after.queue[a]).cpu == (
            #[trigger] after.queue[b]).cpu implies after.queue[a].tid != after.queue[b].tid by {
            assert(after.queue[a] == s.queue[a]);
            if b < s.queue.len() {
                assert(after.queue[b] == s.queue[b]);
            }
        }
        assert forall|a: int| 0 <= a < after.queue.len() implies after.current_on(
            (#[trigger] after.queue[a]).cpu,
        ) != Some(after.queue[a].tid) by {
            if a < s.queue.len() {
                assert(after.queue[a] == s.queue[a]);
            }
        }
    }
}

/// Dispatching keeps tasks apart.
pub proof fn law_dispatch_keeps_apart(s: Sched, cpu: CpuId)
    requires
        s.apart(),
    ensures
        s.dispatched(cpu).apart(),
{
    if s.wants_task(cpu) && s.next_on(cpu) < s.queue.len() {
        lemma_next_waits(s, cpu);
        lemma_taking_keeps_apart(s, cpu, s.next_on(cpu));
    }
}

/// The entry that a dispatch takes waits for its processor.
proof fn lemma_next_waits(s: Sched, cpu: CpuId)
    ensures
        0 <= s.next_on(cpu) <= s.queue.len(),
        s.next_on(cpu) < s.queue.len() ==> s.queue[s.next_on(cpu)].cpu == cpu,
{
    seqs::lemma_first_where(s.queue, crate::scheduler::waits_at(cpu, TaskPriority::High));
    seqs::lemma_first_where(s.queue, crate::scheduler::waits_at(cpu, TaskPriority::Normal));
}

/// A preemption keeps tasks apart, whether or not it finds the task it favours.
pub proof fn law_preempt_keeps_apart(s: Sched, cpu: CpuId, preferred: u64)
    requires
        s.apart(),
    ensures
        s.preempted_for(cpu, preferred).apart(),
{
    let back = s.reenqueued(cpu);
    let entry = crate::scheduler::entry_of(cpu, preferred);
    law_reenqueue_keeps_apart(s, cpu);
    seqs::lemma_first_where(back.queue, entry);
    if s.online(cpu) {
        if seqs::first_where(back.queue, entry) < back.queue.len() {
            lemma_taking_keeps_apart(back, cpu, seqs::first_where(back.queue, entry));
        } else {
            law_dispatch_keeps_apart(back, cpu);
        }
    }
}

/// A dispatch takes the oldest entry of the highest priority that waits for its processor.
pub proof fn law_dispatch_takes_the_oldest_of_the_highest(s: Sched, cpu: CpuId, other: int)
    requires
        s.next_on(cpu) < s.queue.len(),
        0 <= other < s.queue.len(),
        s.queue[other].cpu == cpu,
        other != s.next_on(cpu),
    ensures
        s.queue[other].priority == s.queue[s.next_on(cpu)].priority ==> s.next_on(cpu) < other,
        s.queue[other].priority == TaskPriority::High ==> s.queue[s.next_on(cpu)].priority
            == TaskPriority::High,
{
    let high = crate::scheduler::waits_at(cpu, TaskPriority::High);
    let normal = crate::scheduler::waits_at(cpu, TaskPriority::Normal);
    seqs::lemma_first_where(s.queue, high);
    seqs::lemma_first_where(s.queue, normal);
    if s.queue[other].priority == TaskPriority::High {
        assert(high(s.queue[other]));
    } else {
        assert(normal(s.queue[other]));
    }
}

/// A task that could be queued is found by the next dispatch of an idle processor with an empty
/// queue.
pub proof fn law_queued_task_runs(s: Sched, cpu: CpuId, tid: u64, priority: TaskPriority)
    requires
        s.enqueue_verdict(cpu, tid) is Ok,
        s.wants_task(cpu),
        s.runnable_on(cpu) == 0,
    ensures
        s.enqueued(cpu, tid, priority).selection_on(cpu) == (DispatchSelection::Dequeued { tid }),
        s.enqueued(cpu, tid, priority).dispatched(cpu).current_on(cpu) == Some(tid),
        s.enqueued(cpu, tid, priority).dispatched(cpu).queue == s.queue,
{
    let after = s.enqueued(cpu, tid, priority);
    let n = s.queue.len() as int;
    let waits = crate::scheduler::waits_on(cpu);
    seqs::lemma_count_zero(s.queue, waits);
    seqs::lemma_first_where(s.queue, waits);
    assert forall|j: int| 0 <= j < n implies (#[trigger] s.queue[j]).cpu != cpu by {
        assert(!waits(s.queue[j]));
    }
    let high = crate::scheduler::waits_at(cpu, TaskPriority::High);
    let normal = crate::scheduler::waits_at(cpu, TaskPriority::Normal);
    assert(forall|j: int| 0 <= j < n ==> #[trigger] after.queue[j] == s.queue[j]);
    if priority == TaskPriority::High {
        seqs::lemma_first_where_is(after.queue, high, n);
    } else {
        assert(forall|j: int| 0 <= j < after.queue.len() ==> !high(#[trigger] after.queue[j]));
        seqs::lemma_first_where_is(after.queue, high, after.queue.len() as int);
        seqs::lemma_first_where_is(after.queue, normal, n);
    }
    assert(after.queue.remove(n) =~= s.queue);
}

/// A dispatch step in the name of another processor than the current one changes nothing, and
/// neither does marking it.
pub proof fn law_mismatched_dispatch_changes_nothing(k: Kernel, cpu: CpuId)
    requires
        k.sched.current_cpu != cpu,
    ensures
        k.step_result(cpu) == (CpuDispatch::RefusedCpuMismatch {
            requested: cpu,
            authoritative: k.sched.current_cpu,
        }),
        k.after_step(cpu) == k,
        k.mark_result(k.step_result(cpu)) == DispatchMarkOutcome::RefusedNoSchedulerChange,
        k.after_mark(k.step_result(cpu)) == k,
{
}

/// A mark that is refused changes no task.
pub proof fn law_refused_mark_changes_no_task(k: Kernel, dispatch: CpuDispatch)
    requires
        !(k.mark_result(dispatch) is Marked),
    ensures
        k.after_mark(dispatch) == (Kernel { sched: k.after_mark(dispatch).sched, ..k }),
{
}

/// A mark that is given makes exactly its task run.
pub proof fn law_mark_makes_one_task_run(k: Kernel, dispatch: CpuDispatch)
    requires
        k.mark_result(dispatch) is Marked,
    ensures
        k.after_mark(dispatch).sched == k.sched,
        k.after_mark(dispatch).tasks.find(k.mark_result(dispatch)->0.spec_tid()) matches Some(tcb)
            && tcb.status == TaskStatus::Running,
        forall|other: u64|
            other != k.mark_result(dispatch)->0.spec_tid() ==> #[trigger] k.after_mark(
                dispatch,
            ).tasks.find(other) == k.tasks.find(other),
{
    let token = k.mark_result(dispatch)->0;
    let tcb = k.tasks.find(token.spec_tid())->0;
    crate::task::lemma_found_is_exact(k.tasks, token.spec_tid());
    crate::task::lemma_replaced(
        k.tasks,
        token.spec_tid(),
        ThreadControlBlock { status: TaskStatus::Running, ..tcb },
    );
}

/// A dispatch whose mark is refused and that is undone loses no task: the queue holds what it
/// held before, and nothing is current.
pub proof fn law_undone_dispatch_loses_no_task(k: Kernel, cpu: CpuId)
    requires
        k.sched.current_cpu == cpu,
        k.after_step(cpu).mark_result(k.step_result(cpu)) is RefusedRolledBack,
    ensures
        k.after_step(cpu).after_mark(k.step_result(cpu)).sched.queue.to_multiset()
            == k.sched.queue.to_multiset(),
        k.after_step(cpu).after_mark(k.step_result(cpu)).sched.current_on(cpu) is None,
        k.after_step(cpu).after_mark(k.step_result(cpu)).tasks == k.tasks,
{
    broadcast use vstd::seq_lib::group_to_multiset_ensures;

    lemma_next_waits(k.sched, cpu);
    let i = k.sched.next_on(cpu);
    let taken = k.sched.queue.remove(i);
    let entry = k.sched.queue[i];
    assert(k.after_step(cpu).after_mark(k.step_result(cpu)).sched.queue == taken.push(entry));
    assert(k.sched.queue.to_multiset() =~= taken.to_multiset().insert(entry));
    assert(taken.push(entry).to_multiset() =~= taken.to_multiset().insert(entry));
}

/// A mark and its rollback cancel out: the task is runnable again, the queue holds what it held
/// before the dispatch, and the processor is free.
pub proof fn law_rollback_undoes_mark(k: Kernel, cpu: CpuId)
    requires
        k.sched.current_cpu == cpu,
        k.step_result(cpu) matches CpuDispatch::Selected { selection, .. }
            && selection is Dequeued,
        k.after_step(cpu).mark_result(k.step_result(cpu)) is Marked,
        k.sched.runnable_on(cpu) <= crate::scheduler::MAX_RUN_QUEUE,
        k.after_step(cpu).mark_result(k.step_result(cpu))->0.spec_tid() != crate::ids::IDLE_TID,
    ensures
        ({
            let marked = k.after_step(cpu).after_mark(k.step_result(cpu));
            let token = k.after_step(cpu).mark_result(k.step_result(cpu))->0;
            let back = Kernel {
                tasks: marked.tasks.transitioned(
                    token.spec_tid(),
                    TaskTransition::RollbackDispatchedIncoming,
                ),
                sched: marked.sched.reenqueued(cpu),
                ..marked
            };
            &&& crate::runtime::resume::can_roll_back(marked, token)
            &&& back.tasks == k.tasks
            &&& back.sched.queue.to_multiset() == k.sched.queue.to_multiset()
            &&& back.sched.current_on(cpu) is None
        }),
{
    broadcast use vstd::seq_lib::group_to_multiset_ensures;

    lemma_next_waits(k.sched, cpu);
    let i = k.sched.next_on(cpu);
    let entry = k.sched.queue[i];
    let taken = k.sched.queue.remove(i);
    let stepped = k.after_step(cpu);
    let token = stepped.mark_result(k.step_result(cpu))->0;
    let marked = stepped.after_mark(k.step_result(cpu));
    let tid = token.spec_tid();
    let tcb = k.tasks.find(tid)->0;
    let running = ThreadControlBlock { status: TaskStatus::Running, ..tcb };
    crate::task::lemma_found_is_exact(k.tasks, tid);
    crate::task::lemma_replaced(k.tasks, tid, running);
    seqs::lemma_first_where(k.tasks.tcbs, crate::task::has_tid(tid));
    seqs::lemma_count_remove(k.sched.queue, i, crate::scheduler::waits_on(cpu));
    assert(k.sched.queue.to_multiset() =~= taken.to_multiset().insert(entry));
    assert(taken.push(entry).to_multiset() =~= taken.to_multiset().insert(entry));
    assert(marked.tasks.transitioned(tid, TaskTransition::RollbackDispatchedIncoming).tcbs
        =~= k.tasks.tcbs);
}

/// What a caller may do tells the outcomes of a mark apart, and only a given mark lets it resume.
pub proof fn law_disposition_tells_outcomes_apart(a: DispatchMarkOutcome, b: DispatchMarkOutcome)
    ensures
        a.spec_disposition() == b.spec_disposition() ==> ((a is Marked) == (b is Marked) && (
        a is Marked || a == b)),
        a.spec_disposition() == DispatchDisposition::ResumeIncoming <==> a is Marked,
{
}

/// A mark carries the authority to undo a dequeue exactly when its dispatch dequeued.
pub proof fn law_only_a_dequeue_gives_authority(
    k: Kernel,
    cpu: CpuId,
    selection: DispatchSelection,
)
    requires
        k.mark_of(cpu, selection) is Some,
    ensures
        k.mark_of(cpu, selection)->0.spec_provenance() == (DispatchSelection::Dequeued {
            tid: k.mark_of(cpu, selection)->0.spec_tid(),
        }) <==> selection is Dequeued,
{
}

} // verus!
