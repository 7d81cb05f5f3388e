//! Every refusal says what stood in the way.
use vstd::prelude::*;

use crate::capability::{Caps, ControlPlaneCnodePlan, RuntimeCapacityConfig};
use crate::ids::{CpuId, KernelError, SchedulerError};
use crate::kernel::Kernel;
use crate::scheduler::{DispatchSelection, Sched, WithdrawOutcome};
use crate::seqs;
use crate::task::TaskClass;

verus! {

/// Is there an entry for `tid` in the run queue of `cpu`?
pub open spec fn is_queued(s: Sched, cpu: CpuId, tid: u64) -> bool {
    exists|i: int|
        0 <= i < s.queue.len() && (#[trigger] s.queue[i]).cpu == cpu && s.queue[i].tid == tid
}

proof fn lemma_queued(s: Sched, cpu: CpuId, tid: u64)
    ensures
        seqs::any_where(s.queue, crate::scheduler::entry_of(cpu, tid)) == is_queued(s, cpu, tid),
{
    let p = crate::scheduler::entry_of(cpu, tid);
    seqs::lemma_first_where(s.queue, p);
    if seqs::any_where(s.queue, p) {
        let f = seqs::first_where(s.queue, p);
        assert(s.queue[f].cpu == cpu && s.queue[f].tid == tid);
    }
    if is_queued(s, cpu, tid) {
        let i = choose|i: int|
            0 <= i < s.queue.len() && (#[trigger] s.queue[i]).cpu == cpu && s.queue[i].tid == tid;
        assert(p(s.queue[i]));
    }
}

/// A task is refused a place in a run queue for the first of these: there is no such processor, it
/// is not online, it only wakes, the task runs or waits there already, or the queue is full.
pub proof fn law_refused_enqueue_is_told_why(s: Sched, cpu: CpuId, tid: u64)
    ensures
        ({
            let c = cpu.0 as int;
            let known = c < s.cpus.len();
            let online = known && s.cpus[c].online;
            let dispatches = online && !s.cpus[c].wake_only;
            let there = s.cpus[c].current == Some(tid) || is_queued(s, cpu, tid);
            let full = crate::laws::waking::places_for(s.queue, cpu).len() >= 64;
            &&& s.enqueue_verdict(cpu, tid) == Err::<(), SchedulerError>(
                SchedulerError::InvalidCpu,
            ) <==> !known
            &&& s.enqueue_verdict(cpu, tid) == Err::<(), SchedulerError>(
                SchedulerError::CpuOffline,
            ) <==> known && !online
            &&& s.enqueue_verdict(cpu, tid) == Err::<(), SchedulerError>(
                SchedulerError::WakeOnly,
            ) <==> online && !dispatches
            &&& s.enqueue_verdict(cpu, tid) == Err::<(), SchedulerError>(
                SchedulerError::AlreadyQueued,
            ) <==> dispatches && there
            &&& s.enqueue_verdict(cpu, tid) == Err::<(), SchedulerError>(
                SchedulerError::QueueFull,
            ) <==> dispatches && !there && full
        }),
{
    crate::laws::waking::law_runnable_counts_entries(s, cpu);
    lemma_queued(s, cpu, tid);
}

/// A withdrawal is refused to a task that runs there, where the processor is unknown, and where the
/// task does not wait there.
pub proof fn law_refused_withdrawal_is_told_why(s: Sched, cpu: CpuId, tid: u64)
    ensures
        ({
            let c = cpu.0 as int;
            let known = c < s.cpus.len();
            let runs = known && s.cpus[c].current == Some(tid);
            let verdict = s.withdraw_verdict(cpu, tid);
            &&& verdict == WithdrawOutcome::InvalidCpu <==> !known
            &&& verdict == WithdrawOutcome::RefusedCurrent <==> runs
            &&& verdict == WithdrawOutcome::NotQueued <==> known && !runs && !is_queued(s, cpu, tid)
            &&& verdict != WithdrawOutcome::Removed ==> s.withdrawn(cpu, tid) == s
        }),
{
    lemma_queued(s, cpu, tid);
    seqs::lemma_first_where(s.queue, crate::scheduler::entry_of(cpu, tid));
    seqs::lemma_count_zero(s.queue, crate::scheduler::entry_of(cpu, tid));
}

/// A task that waits twice on a processor is not withdrawn from it.
pub proof fn law_doubly_queued_task_stays(s: Sched, cpu: CpuId, tid: u64, i: int, j: int)
    requires
        (cpu.0 as int) < s.cpus.len(),
        s.cpus[cpu.0 as int].current != Some(tid),
        0 <= i < j < s.queue.len(),
        s.queue[i].cpu == cpu && s.queue[i].tid == tid,
        s.queue[j].cpu == cpu && s.queue[j].tid == tid,
    ensures
        s.withdraw_verdict(cpu, tid) == WithdrawOutcome::RefusedDuplicate,
        s.withdrawn(cpu, tid) == s,
{
    let p = crate::scheduler::entry_of(cpu, tid);
    let rest = s.queue.remove(j);
    assert(p(s.queue[j]));
    assert(rest[i] == s.queue[i] && p(rest[i]));
    seqs::lemma_count_remove(s.queue, j, p);
    seqs::lemma_first_where(rest, p);
    seqs::lemma_count_zero(rest, p);
}

/// A resize is refused for the first of these: the requester is neither a system server nor of the
/// process, no slot is asked for, more than the limit are, or there is no room for the node.  What
/// is left is refused because a capability stands beyond the slots.
pub proof fn law_refused_resize_is_told_why(
    caps: Caps,
    plan: ControlPlaneCnodePlan,
    pid: u64,
    slots: usize,
    limits: RuntimeCapacityConfig,
)
    ensures
        ({
            let verdict = caps.resize_verdict(plan, pid, slots, limits);
            let entitled = plan.requester_class == TaskClass::SystemServer || plan.requester_pid
                == pid;
            let has_node = exists|i: int|
                0 <= i < caps.cnodes.len() && (#[trigger] caps.cnodes[i]).cnode.0 == pid;
            &&& verdict == Err::<(), KernelError>(KernelError::MissingRight) <==> !entitled
            &&& verdict == Err::<(), KernelError>(KernelError::CapabilityFull) <==> entitled
                && slots > limits.max_cnode_slots && slots != 0
            &&& verdict == Err::<(), KernelError>(KernelError::TaskTableFull) <==> entitled && 1
                <= slots <= limits.max_cnode_slots && !has_node && caps.cnodes.len()
                >= limits.max_tasks
            &&& entitled && slots == 0 ==> verdict == Err::<(), KernelError>(
                KernelError::WrongObject,
            )
            &&& verdict is Err ==> verdict->Err_0 == KernelError::MissingRight || verdict->Err_0
                == KernelError::CapabilityFull || verdict->Err_0 == KernelError::TaskTableFull
                || verdict->Err_0 == KernelError::WrongObject
        }),
{
    crate::laws::admitting::law_node_is_resized(caps, plan, pid, slots, limits);
    let q = crate::capability::of_cnode(crate::ids::CNodeId(pid));
    seqs::lemma_first_where(caps.cnodes, q);
}

/// A wake is refused to a task that is not there, to one that takes no part in scheduling, to one
/// without a class and to one whose start is still reserved; otherwise for what the run queue of
/// its home says.
pub proof fn law_refused_wake_is_told_why(k: Kernel, cpu: CpuId, i: int)
    requires
        k.tasks.apart(),
        0 <= i < k.tasks.tcbs.len(),
        k.tasks.tcbs[i] is Some,
    ensures
        ({
            let tcb = k.tasks.tcbs[i]->0;
            let tid = tcb.tid.0;
            let part = crate::laws::waking::takes_part(tcb.status);
            let classed = tid == 0 || tcb.class is Some;
            let running = tcb.status == crate::task::TaskStatus::Running && (cpu.0 as int)
                < k.sched.cpus.len() && k.sched.cpus[cpu.0 as int].current == Some(tid);
            let home = match tcb.cpu_affinity {
                Some(home) => home,
                None => k.sched.current_cpu,
            };
            let verdict = k.wake_result(cpu, tid);
            &&& verdict == Err::<(), KernelError>(KernelError::WouldBlock) <==> !part
            &&& verdict == Err::<(), KernelError>(KernelError::TaskMissing) <==> part && !classed
            &&& verdict == Err::<(), KernelError>(KernelError::WrongObject) <==> part && classed
                && !running && tcb.spawn_reservation
            &&& part && classed && !running && !tcb.spawn_reservation
                && k.sched.enqueue_verdict(home, tid) is Err ==> verdict == Err::<(), KernelError>(
                KernelError::Scheduler(k.sched.enqueue_verdict(home, tid)->Err_0),
            )
        }),
{
    crate::laws::slots::law_task_is_found_where_it_stands(k.tasks, i);
}

/// What a dispatch selected is told apart by its name.
pub proof fn law_selections_have_names_of_their_own(a: DispatchSelection)
    ensures
        a is Idle <==> a.marker_text() == "idle"@,
        a is Dequeued <==> a.marker_text() == "dequeued"@,
        a is ContinuedCurrent <==> a.marker_text() == "continued_current"@,
{
    reveal_strlit("idle");
    reveal_strlit("dequeued");
    reveal_strlit("continued_current");
    assert("idle"@.len() == 4 && "dequeued"@.len() == 8 && "continued_current"@.len() == 17);
}

} // verus!
